//! A finite map kept as a vector of entries with distinct keys, in the
//! order in which keys were first inserted.
use vstd::prelude::*;
use crate::address::Address;

verus! {

/// Keys that can be compared for equality of their views.
pub trait KeyEq: View + Sized {
    fn key_eq(&self, other: &Self) -> (r: bool)
        ensures
            r == (self@ == other@),
    ;
}

impl KeyEq for Address {
    fn key_eq(&self, other: &Self) -> (r: bool) {
        self.equals(other)
    }
}

impl KeyEq for u128 {
    fn key_eq(&self, other: &Self) -> (r: bool) {
        *self == *other
    }
}

impl KeyEq for u64 {
    fn key_eq(&self, other: &Self) -> (r: bool) {
        *self == *other
    }
}

impl KeyEq for String {
    fn key_eq(&self, other: &Self) -> (r: bool) {
        *self == *other
    }
}

impl KeyEq for (Address, Address) {
    fn key_eq(&self, other: &Self) -> (r: bool) {
        self.0.equals(&other.0) && self.1.equals(&other.1)
    }
}

/// The amount a map holds for a key; zero when the key is absent.
pub open spec fn amount_of<K>(m: Map<K, u64>, k: K) -> u64 {
    if m.contains_key(k) {
        m[k]
    } else {
        0
    }
}

/// The map after adding `x` to the amount held for `k`.
pub open spec fn credited<K>(m: Map<K, u64>, k: K, x: u64) -> Map<K, u64> {
    m.insert(k, (amount_of(m, k) + x) as u64)
}

/// The map after taking `x` from the amount held for `k`.
pub open spec fn debited<K>(m: Map<K, u64>, k: K, x: u64) -> Map<K, u64> {
    m.insert(k, (amount_of(m, k) - x) as u64)
}

/// A map whose entries are kept in a vector.
#[derive(Debug)]
pub struct VecMap<K, V> {
    entries: Vec<(K, V)>,
}

/// Whether the keys of `s` are pairwise distinct.
pub open spec fn distinct_keys<K: View, V>(s: Seq<(K, V)>) -> bool {
    forall|i: int, j: int|
        0 <= i < s.len() && 0 <= j < s.len() && i != j ==> (#[trigger] s[i]).0@ != (#[trigger] s[j]).0@
}

/// Whether some entry of `s` has the key `k`.
pub open spec fn has_key<K: View, V>(s: Seq<(K, V)>, k: K::V) -> bool {
    exists|i: int| 0 <= i < s.len() && (#[trigger] s[i]).0@ == k
}

/// The position of the entry with key `k`.
pub open spec fn key_pos<K: View, V>(s: Seq<(K, V)>, k: K::V) -> int {
    choose|i: int| 0 <= i < s.len() && (#[trigger] s[i]).0@ == k
}

/// The map that a sequence of entries with distinct keys stands for.
pub open spec fn entries_map<K: View, V>(s: Seq<(K, V)>) -> Map<K::V, V> {
    Map::new(|k: K::V| has_key(s, k), |k: K::V| s[key_pos(s, k)].1)
}

/// The sum of the values of a sequence of entries.
pub open spec fn sum_entries<K>(s: Seq<(K, u64)>) -> int
    decreases s.len(),
{
    if s.len() == 0 {
        0
    } else {
        sum_entries(s.drop_last()) + s.last().1
    }
}

proof fn lemma_key_pos<K: View, V>(s: Seq<(K, V)>, i: int)
    requires
        distinct_keys(s),
        0 <= i < s.len(),
    ensures
        has_key(s, s[i].0@),
        key_pos(s, s[i].0@) == i,
{
    assert(has_key(s, s[i].0@));
}

proof fn lemma_sum_update<K>(s: Seq<(K, u64)>, i: int, e: (K, u64))
    requires
        0 <= i < s.len(),
    ensures
        sum_entries(s.update(i, e)) == sum_entries(s) - s[i].1 + e.1,
    decreases s.len(),
{
    let t = s.update(i, e);
    if i == s.len() - 1 {
        assert(t.drop_last() =~= s.drop_last());
    } else {
        lemma_sum_update(s.drop_last(), i, e);
        assert(t.drop_last() =~= s.drop_last().update(i, e));
    }
}

proof fn lemma_sum_remove<K>(s: Seq<(K, u64)>, i: int)
    requires
        0 <= i < s.len(),
    ensures
        sum_entries(s.remove(i)) == sum_entries(s) - s[i].1,
    decreases s.len(),
{
    let t = s.remove(i);
    if i == s.len() - 1 {
        assert(t =~= s.drop_last());
    } else {
        lemma_sum_remove(s.drop_last(), i);
        assert(t.drop_last() =~= s.drop_last().remove(i));
    }
}

proof fn lemma_sum_push<K>(s: Seq<(K, u64)>, e: (K, u64))
    ensures
        sum_entries(s.push(e)) == sum_entries(s) + e.1,
{
    assert(s.push(e).drop_last() =~= s);
}

proof fn lemma_sum_nonneg<K>(s: Seq<(K, u64)>)
    ensures
        sum_entries(s) >= 0,
    decreases s.len(),
{
    if s.len() > 0 {
        lemma_sum_nonneg(s.drop_last());
    }
}

/// Every value counted in the sum is at most the sum.
proof fn lemma_sum_ge_entry<K>(s: Seq<(K, u64)>, i: int)
    requires
        0 <= i < s.len(),
    ensures
        sum_entries(s) >= s[i].1,
    decreases s.len(),
{
    lemma_sum_nonneg(s.drop_last());
    if i < s.len() - 1 {
        lemma_sum_ge_entry(s.drop_last(), i);
    }
}

impl<K: KeyEq, V> View for VecMap<K, V> {
    type V = Map<K::V, V>;

    closed spec fn view(&self) -> Map<K::V, V> {
        entries_map(self.entries@)
    }
}

impl<K: KeyEq, V> VecMap<K, V> {
    /// Keys are pairwise distinct.
    pub closed spec fn wf(&self) -> bool {
        distinct_keys(self.entries@)
    }

    /// The entries in the order in which their keys were first inserted.
    pub closed spec fn entries(&self) -> Seq<(K, V)> {
        self.entries@
    }

    /// An empty map.
    pub fn new() -> (r: Self)
        ensures
            r.wf(),
            r@ == Map::<K::V, V>::empty(),
            r.entries() == Seq::<(K, V)>::empty(),
    {
        let r = VecMap { entries: Vec::new() };
        assert(r@ =~= Map::<K::V, V>::empty());
        r
    }

    /// The entries stand for the map.
    pub proof fn lemma_entries_view(&self)
        requires
            self.wf(),
        ensures
            forall|i: int|
                0 <= i < self.entries().len() ==> #[trigger] self@.contains_key(self.entries()[i].0@)
                    && self@[self.entries()[i].0@] == self.entries()[i].1,
            forall|k: K::V|
                #[trigger] self@.contains_key(k) ==> exists|i: int|
                    0 <= i < self.entries().len() && (#[trigger] self.entries()[i]).0@ == k,
            self@.dom().finite(),
            self@.dom().len() == self.entries().len(),
            distinct_keys(self.entries()),
    {
        assert forall|i: int| 0 <= i < self.entries().len() implies #[trigger] self@.contains_key(
            self.entries()[i].0@,
        ) && self@[self.entries()[i].0@] == self.entries()[i].1 by {
            lemma_key_pos(self.entries@, i);
        }
        assert forall|k: K::V| #[trigger] self@.contains_key(k) implies exists|i: int|
            0 <= i < self.entries().len() && (#[trigger] self.entries()[i]).0@ == k by {
            assert(has_key(self.entries@, k));
            let i = key_pos(self.entries@, k);
            assert(self.entries()[i].0@ == k);
        }
        Self::lemma_dom_len(self.entries@);
    }

    /// A key is in the map exactly when some entry has it.
    pub proof fn lemma_contains_has_key(&self, k: K::V)
        ensures
            self@.contains_key(k) == has_key(self.entries(), k),
    {
    }

    /// The entry at a position is in the map.
    pub proof fn lemma_entry_in_map(&self, i: int)
        requires
            self.wf(),
            0 <= i < self.entries().len(),
        ensures
            self@.contains_key(self.entries()[i].0@),
            self@[self.entries()[i].0@] == self.entries()[i].1,
    {
        lemma_key_pos(self.entries@, i);
    }

    proof fn lemma_dom_len(s: Seq<(K, V)>)
        requires
            distinct_keys(s),
        ensures
            entries_map(s).dom().finite(),
            entries_map(s).dom().len() == s.len(),
        decreases s.len(),
    {
        if s.len() == 0 {
            assert(entries_map(s).dom() =~= Set::<K::V>::empty());
        } else {
            let t = s.drop_last();
            assert(distinct_keys(t));
            Self::lemma_dom_len(t);
            let k = s.last().0@;
            assert(!has_key(t, k)) by {
                if has_key(t, k) {
                    let j = key_pos(t, k);
                    assert(s[j].0@ == s[s.len() - 1].0@);
                }
            }
            assert(entries_map(s).dom() =~= entries_map(t).dom().insert(k)) by {
                assert forall|x: K::V| entries_map(s).dom().contains(x) implies entries_map(
                    t,
                ).dom().contains(x) || x == k by {
                    let j = key_pos(s, x);
                    if j < s.len() - 1 {
                        assert(t[j] == s[j]);
                    }
                }
                assert forall|x: K::V| entries_map(t).dom().contains(x) implies entries_map(
                    s,
                ).dom().contains(x) by {
                    let j = key_pos(t, x);
                    assert(s[j] == t[j]);
                }
                assert(s[s.len() - 1].0@ == k);
            }
        }
    }


    /// The number of entries.
    pub fn len(&self) -> (r: usize)
        requires
            self.wf(),
        ensures
            r == self@.dom().len(),
            r == self.entries().len(),
    {
        proof {
            self.lemma_entries_view();
        }
        self.entries.len()
    }

    fn find(&self, k: &K) -> (r: Option<usize>)
        requires
            self.wf(),
        ensures
            match r {
                Some(i) => i < self.entries@.len() && self.entries@[i as int].0@ == k@ && key_pos(
                    self.entries@,
                    k@,
                ) == i,
                None => !has_key(self.entries@, k@),
            },
    {
        let n = self.entries.len();
        let mut i: usize = 0;
        while i < n
            invariant
                n == self.entries@.len(),
                i <= n,
                distinct_keys(self.entries@),
                forall|j: int| 0 <= j < i ==> (#[trigger] self.entries@[j]).0@ != k@,
            decreases n - i,
        {
            if self.entries[i].0.key_eq(k) {
                proof {
                    lemma_key_pos(self.entries@, i as int);
                }
                return Some(i);
            }
            i = i + 1;
        }
        None
    }

    /// The entry at a position of the insertion order.
    pub fn entry_at(&self, i: usize) -> (r: (&K, &V))
        requires
            i < self.entries().len(),
        ensures
            *r.0 == self.entries()[i as int].0,
            *r.1 == self.entries()[i as int].1,
    {
        let e = &self.entries[i];
        (&e.0, &e.1)
    }

    /// Whether the key has an entry.
    pub fn contains_key(&self, k: &K) -> (r: bool)
        requires
            self.wf(),
        ensures
            r == self@.contains_key(k@),
    {
        self.find(k).is_some()
    }

    /// The value of a key, if it has one.
    pub fn get(&self, k: &K) -> (r: Option<&V>)
        requires
            self.wf(),
        ensures
            match r {
                Some(v) => self@.contains_key(k@) && *v == self@[k@],
                None => !self@.contains_key(k@),
            },
    {
        match self.find(k) {
            Some(i) => Some(&self.entries[i].1),
            None => None,
        }
    }

    /// Sets the value of a key. A key already present keeps its position.
    pub fn insert(&mut self, k: K, v: V)
        requires
            old(self).wf(),
        ensures
            final(self).wf(),
            final(self)@ == old(self)@.insert(k@, v),
            has_key(old(self).entries(), k@) ==> final(self).entries() == old(self).entries().update(
                key_pos(old(self).entries(), k@),
                (k, v),
            ),
            !has_key(old(self).entries(), k@) ==> final(self).entries() == old(self).entries().push(
                (k, v),
            ),
    {
        let ghost kv = k@;
        let ghost old_s = self.entries@;
        match self.find(&k) {
            Some(i) => {
                self.entries.set(i, (k, v));
                proof {
                    let s = self.entries@;
                    assert(s =~= old_s.update(i as int, (k, v)));
                    assert(distinct_keys(s)) by {
                        assert forall|a: int, b: int|
                            0 <= a < s.len() && 0 <= b < s.len() && a != b implies (#[trigger] s[a]).0@
                            != (#[trigger] s[b]).0@ by {
                            if a != i && b != i {
                                assert(s[a] == old_s[a] && s[b] == old_s[b]);
                            } else if a == i {
                                assert(old_s[i as int].0@ == kv);
                                assert(s[b] == old_s[b]);
                            } else {
                                assert(old_s[i as int].0@ == kv);
                                assert(s[a] == old_s[a]);
                            }
                        }
                    }
                    self.lemma_view_after_update(old_s, i as int, kv, v);
                }
            },
            None => {
                self.entries.push((k, v));
                proof {
                    let s = self.entries@;
                    assert(s =~= old_s.push((k, v)));
                    assert(distinct_keys(s)) by {
                        assert forall|a: int, b: int|
                            0 <= a < s.len() && 0 <= b < s.len() && a != b implies (#[trigger] s[a]).0@
                            != (#[trigger] s[b]).0@ by {
                            if a < old_s.len() && b < old_s.len() {
                                assert(s[a] == old_s[a] && s[b] == old_s[b]);
                            } else if a == old_s.len() {
                                assert(s[b] == old_s[b]);
                                assert(!(old_s[b].0@ == kv));
                            } else {
                                assert(s[a] == old_s[a]);
                                assert(!(old_s[a].0@ == kv));
                            }
                        }
                    }
                    self.lemma_view_after_push(old_s, kv, v);
                }
            },
        }
    }

    proof fn lemma_view_after_update(&self, old_s: Seq<(K, V)>, i: int, kv: K::V, v: V)
        requires
            distinct_keys(old_s),
            distinct_keys(self.entries@),
            0 <= i < old_s.len(),
            old_s[i].0@ == kv,
            self.entries@.len() == old_s.len(),
            self.entries@[i].0@ == kv,
            self.entries@[i].1 == v,
            forall|j: int| 0 <= j < old_s.len() && j != i ==> self.entries@[j] == old_s[j],
        ensures
            self@ == entries_map(old_s).insert(kv, v),
    {
        let s = self.entries@;
        lemma_key_pos(s, i);
        assert forall|x: K::V| #[trigger] has_key(s, x) == (has_key(old_s, x) || x == kv) by {
            if has_key(s, x) {
                let j = key_pos(s, x);
                if j != i {
                    assert(old_s[j] == s[j]);
                }
            }
            if has_key(old_s, x) {
                let j = key_pos(old_s, x);
                if j != i {
                    assert(old_s[j] == s[j]);
                } else {
                    assert(s[i].0@ == x);
                }
            }
        }
        assert forall|x: K::V| has_key(s, x) && x != kv implies s[key_pos(s, x)].1 == old_s[key_pos(
            old_s,
            x,
        )].1 by {
            let j = key_pos(s, x);
            assert(j != i);
            assert(old_s[j] == s[j]);
            lemma_key_pos(old_s, j);
        }
        assert(self@ =~= entries_map(old_s).insert(kv, v));
    }

    proof fn lemma_view_after_push(&self, old_s: Seq<(K, V)>, kv: K::V, v: V)
        requires
            distinct_keys(old_s),
            distinct_keys(self.entries@),
            !has_key(old_s, kv),
            self.entries@.len() == old_s.len() + 1,
            self.entries@[old_s.len() as int].0@ == kv,
            self.entries@[old_s.len() as int].1 == v,
            forall|j: int| 0 <= j < old_s.len() ==> self.entries@[j] == old_s[j],
        ensures
            self@ == entries_map(old_s).insert(kv, v),
    {
        let s = self.entries@;
        let n = old_s.len() as int;
        lemma_key_pos(s, n);
        assert forall|x: K::V| #[trigger] has_key(s, x) == (has_key(old_s, x) || x == kv) by {
            if has_key(s, x) {
                let j = key_pos(s, x);
                if j != n {
                    assert(old_s[j] == s[j]);
                }
            }
            if has_key(old_s, x) {
                let j = key_pos(old_s, x);
                assert(old_s[j] == s[j]);
            }
        }
        assert forall|x: K::V| has_key(s, x) && x != kv implies s[key_pos(s, x)].1 == old_s[key_pos(
            old_s,
            x,
        )].1 by {
            let j = key_pos(s, x);
            assert(j != n);
            assert(old_s[j] == s[j]);
            lemma_key_pos(old_s, j);
        }
        assert(self@ =~= entries_map(old_s).insert(kv, v));
    }

    /// Removes a key and hands back its value, if it had one.
    pub fn remove(&mut self, k: &K) -> (r: Option<V>)
        requires
            old(self).wf(),
        ensures
            final(self).wf(),
            final(self)@ == old(self)@.remove(k@),
            match r {
                Some(v) => old(self)@.contains_key(k@) && v == old(self)@[k@],
                None => !old(self)@.contains_key(k@),
            },
            has_key(old(self).entries(), k@) ==> final(self).entries() == old(self).entries().remove(
                key_pos(old(self).entries(), k@),
            ),
            !has_key(old(self).entries(), k@) ==> final(self).entries() == old(self).entries(),
    {
        let ghost old_s = self.entries@;
        let ghost kv = k@;
        match self.find(k) {
            Some(i) => {
                let (_, v) = self.entries.remove(i);
                proof {
                    let s = self.entries@;
                    assert(s =~= old_s.remove(i as int));
                    assert(distinct_keys(s)) by {
                        assert forall|a: int, b: int|
                            0 <= a < s.len() && 0 <= b < s.len() && a != b implies (#[trigger] s[a]).0@
                            != (#[trigger] s[b]).0@ by {
                            let a2 = if a < i { a } else { a + 1 };
                            let b2 = if b < i { b } else { b + 1 };
                            assert(s[a] == old_s[a2] && s[b] == old_s[b2]);
                        }
                    }
                    assert forall|x: K::V| #[trigger] has_key(s, x) == (has_key(old_s, x) && x != kv) by {
                        if has_key(s, x) {
                            let j = key_pos(s, x);
                            let j2 = if j < i { j } else { j + 1 };
                            assert(s[j] == old_s[j2]);
                            assert(j2 != i);
                        }
                        if has_key(old_s, x) && x != kv {
                            let j = key_pos(old_s, x);
                            assert(j != i);
                            let j2 = if j < i { j } else { j - 1 };
                            assert(s[j2] == old_s[j]);
                        }
                    }
                    assert forall|x: K::V| has_key(s, x) implies s[key_pos(s, x)].1 == old_s[key_pos(
                        old_s,
                        x,
                    )].1 by {
                        let j = key_pos(s, x);
                        let j2 = if j < i { j } else { j + 1 };
                        assert(s[j] == old_s[j2]);
                        lemma_key_pos(old_s, j2);
                    }
                    assert(self@ =~= entries_map(old_s).remove(kv));
                    lemma_key_pos(old_s, i as int);
                }
                Some(v)
            },
            None => {
                proof {
                    assert(entries_map(old_s).remove(kv) =~= entries_map(old_s));
                }
                None
            },
        }
    }
}

impl<K: KeyEq> VecMap<K, u64> {
    /// The sum of all values.
    pub closed spec fn sum(&self) -> int {
        sum_entries(self.entries@)
    }

    /// Setting a key changes the sum by the difference of the values.
    pub proof fn lemma_sum_insert(old_map: Self, new_map: Self, k: K, v: u64)
        requires
            old_map.wf(),
            has_key(old_map.entries(), k@) ==> new_map.entries() == old_map.entries().update(
                key_pos(old_map.entries(), k@),
                (k, v),
            ),
            !has_key(old_map.entries(), k@) ==> new_map.entries() == old_map.entries().push((k, v)),
        ensures
            new_map.sum() == old_map.sum() - (if old_map@.contains_key(k@) {
                old_map@[k@] as int
            } else {
                0
            }) + v,
    {
        let s = old_map.entries@;
        if has_key(s, k@) {
            lemma_sum_update(s, key_pos(s, k@), (k, v));
        } else {
            lemma_sum_push(s, (k, v));
        }
    }

    /// Removing a key lowers the sum by its value.
    pub proof fn lemma_sum_remove(old_map: Self, new_map: Self, k: K::V)
        requires
            old_map.wf(),
            has_key(old_map.entries(), k) ==> new_map.entries() == old_map.entries().remove(
                key_pos(old_map.entries(), k),
            ),
            !has_key(old_map.entries(), k) ==> new_map.entries() == old_map.entries(),
        ensures
            new_map.sum() == old_map.sum() - (if old_map@.contains_key(k) {
                old_map@[k] as int
            } else {
                0
            }),
    {
        let s = old_map.entries@;
        if has_key(s, k) {
            lemma_sum_remove(s, key_pos(s, k));
        }
    }

    /// No value exceeds the sum, and the sum is not negative.
    pub proof fn lemma_sum_bounds(&self, k: K::V)
        requires
            self.wf(),
        ensures
            self.sum() >= 0,
            self@.contains_key(k) ==> self.sum() >= self@[k],
    {
        lemma_sum_nonneg(self.entries@);
        if has_key(self.entries@, k) {
            lemma_sum_ge_entry(self.entries@, key_pos(self.entries@, k));
        }
    }

    /// The sum is the sum over the entries, and a prefix of the entries
    /// sums to no more than a longer prefix.
    pub proof fn lemma_sum_prefix(&self, i: int, j: int)
        requires
            0 <= i <= j <= self.entries().len(),
        ensures
            self.sum() == sum_entries(self.entries()),
            0 <= sum_entries(self.entries().take(i)) <= sum_entries(self.entries().take(j)),
        decreases j - i,
    {
        let s = self.entries@;
        if i < j {
            self.lemma_sum_prefix(i, j - 1);
            assert(s.take(j).drop_last() =~= s.take(j - 1));
        } else {
            lemma_sum_nonneg(s.take(i));
        }
    }

    /// The empty map sums to zero.
    pub proof fn lemma_sum_empty(&self)
        requires
            self.entries() == Seq::<(K, u64)>::empty(),
        ensures
            self.sum() == 0,
    {
    }
}

} // verus!
