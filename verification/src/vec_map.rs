//! A map kept as a list of entries, in which every key occurs once.

use vstd::prelude::*;

verus! {

/// A type whose values can stand as keys: they can be told apart by what they view.
pub trait Key: View + Sized {
    fn same(&self, other: &Self) -> (r: bool)
        ensures
            r == (self@ == other@),
    ;
}

impl Key for String {
    fn same(&self, other: &Self) -> (r: bool) {
        *self == *other
    }
}

impl Key for Vec<u8> {
    fn same(&self, other: &Self) -> (r: bool) {
        if self.len() != other.len() {
            return false;
        }
        let mut i: usize = 0;
        while i < self.len()
            invariant
                i <= self.len(),
                self.len() == other.len(),
                forall|j: int| 0 <= j < i ==> self@[j] == other@[j],
            decreases self.len() - i,
        {
            if self[i] != other[i] {
                return false;
            }
            i = i + 1;
        }
        assert(self@ =~= other@);
        true
    }
}

/// No key occurs twice.
pub open spec fn distinct_keys<K, V>(entries: Seq<(K, V)>) -> bool {
    forall|i: int, j: int| 0 <= i < j < entries.len() ==> entries[i].0 != entries[j].0
}

/// Some entry has the key `k`.
pub open spec fn has_key<K, V>(entries: Seq<(K, V)>, k: K) -> bool {
    exists|i: int| 0 <= i < entries.len() && entries[i].0 == k
}

/// Where the entry with the key `k` stands.
pub open spec fn position<K, V>(entries: Seq<(K, V)>, k: K) -> int
    recommends
        has_key(entries, k),
{
    choose|i: int| 0 <= i < entries.len() && entries[i].0 == k
}

/// The value of the key `k`.
pub open spec fn lookup<K, V>(entries: Seq<(K, V)>, k: K) -> Option<V> {
    if has_key(entries, k) {
        Some(entries[position(entries, k)].1)
    } else {
        None
    }
}

/// The entries with the value of `k` set to `v`: in its place where the key is there, else at the
/// end.
pub open spec fn inserted<K, V>(entries: Seq<(K, V)>, k: K, v: V) -> Seq<(K, V)> {
    if has_key(entries, k) {
        entries.update(position(entries, k), (k, v))
    } else {
        entries.push((k, v))
    }
}

/// The entries without the one of the key `k`.
pub open spec fn removed<K, V>(entries: Seq<(K, V)>, k: K) -> Seq<(K, V)> {
    if has_key(entries, k) {
        entries.remove(position(entries, k))
    } else {
        entries
    }
}

/// A key that stands at `i` stands nowhere else.
pub proof fn lemma_position<K, V>(entries: Seq<(K, V)>, i: int)
    requires
        distinct_keys(entries),
        0 <= i < entries.len(),
    ensures
        has_key(entries, entries[i].0),
        position(entries, entries[i].0) == i,
        lookup(entries, entries[i].0) == Some(entries[i].1),
{
    let p = position(entries, entries[i].0);
    assert(0 <= p < entries.len() && entries[p].0 == entries[i].0);
}

/// Setting a value keeps the keys distinct. Afterwards the key has that value, and every other key
/// the value it had.
pub proof fn law_inserted<K, V>(entries: Seq<(K, V)>, k: K, v: V, other: K)
    requires
        distinct_keys(entries),
    ensures
        distinct_keys(inserted(entries, k, v)),
        lookup(inserted(entries, k, v), k) == Some(v),
        other != k ==> lookup(inserted(entries, k, v), other) == lookup(entries, other),
{
    let after = inserted(entries, k, v);
    if has_key(entries, k) {
        lemma_position(after, position(entries, k));
    } else {
        lemma_position(after, entries.len() as int);
    }
    if other != k {
        if has_key(entries, other) {
            let i = position(entries, other);
            assert(after[i] == entries[i]);
            lemma_position(after, i);
        } else if has_key(after, other) {
            let i = position(after, other);
            assert(after[i].0 == other);
            assert(entries[i].0 == other);
        }
    }
}

/// Removing a key keeps the keys distinct. Afterwards the key has no value, and every other key the
/// value it had.
pub proof fn law_removed<K, V>(entries: Seq<(K, V)>, k: K, other: K)
    requires
        distinct_keys(entries),
    ensures
        distinct_keys(removed(entries, k)),
        lookup(removed(entries, k), k) == None::<V>,
        other != k ==> lookup(removed(entries, k), other) == lookup(entries, other),
{
    let after = removed(entries, k);
    if has_key(entries, k) {
        let p = position(entries, k);
        assert forall|i: int| 0 <= i < after.len() implies after[i] == entries[if i < p {
            i
        } else {
            i + 1
        }] by {}
        if has_key(after, k) {
            let i = position(after, k);
            assert(after[i].0 == k);
        }
        if other != k {
            if has_key(entries, other) {
                let i = position(entries, other);
                let j = if i < p {
                    i
                } else {
                    i - 1
                };
                assert(after[j] == entries[i]);
                lemma_position(after, j);
            } else if has_key(after, other) {
                let i = position(after, other);
                assert(after[i].0 == other);
                assert(has_key(entries, other));
            }
        }
    }
}

/// Setting the entries of a list with distinct keys one by one gives that list.
pub proof fn lemma_inserted_next<K, V>(entries: Seq<(K, V)>, i: int)
    requires
        distinct_keys(entries),
        0 <= i < entries.len(),
    ensures
        inserted(entries.take(i), entries[i].0, entries[i].1) == entries.take(i + 1),
{
    let before = entries.take(i);
    assert(!has_key(before, entries[i].0)) by {
        if has_key(before, entries[i].0) {
            let j = position(before, entries[i].0);
            assert(entries[j].0 == entries[i].0);
        }
    }
    assert(inserted(before, entries[i].0, entries[i].1) =~= entries.take(i + 1));
}

/// A map from keys to values. Its view is the list of its entries.
#[derive(Debug)]
pub struct VecMap<K: Key, V> {
    entries: Vec<(K, V)>,
}

/// What a list of entries views.
pub open spec fn entries_view<K: Key, V>(entries: Seq<(K, V)>) -> Seq<(K::V, V)> {
    Seq::new(entries.len(), |i: int| (entries[i].0@, entries[i].1))
}

impl<K: Key, V> View for VecMap<K, V> {
    type V = Seq<(K::V, V)>;

    closed spec fn view(&self) -> Seq<(K::V, V)> {
        entries_view(self.entries@)
    }
}

impl<K: Key, V> VecMap<K, V> {
    /// Every key of a map occurs once.
    #[verifier::type_invariant]
    pub open spec fn inv(self) -> bool {
        distinct_keys(self@)
    }

    /// The map without entries.
    pub fn new() -> (r: Self)
        ensures
            r@ == Seq::<(K::V, V)>::empty(),
    {
        let r = VecMap { entries: Vec::new() };
        assert(r@ =~= Seq::<(K::V, V)>::empty());
        r
    }

    /// How many entries there are.
    pub fn len(&self) -> (n: usize)
        ensures
            n == self@.len(),
    {
        self.entries.len()
    }

    /// The entry at `i`.
    pub fn entry(&self, i: usize) -> (r: (&K, &V))
        requires
            i < self@.len(),
        ensures
            (r.0@, *r.1) == self@[i as int],
    {
        let e = &self.entries[i];
        (&e.0, &e.1)
    }

    /// Where the entry with the key `k` stands, or how many entries there are.
    fn find(entries: &Vec<(K, V)>, k: &K) -> (i: usize)
        ensures
            i <= entries@.len(),
            i < entries@.len() ==> entries@[i as int].0@ == k@ && has_key(
                entries_view(entries@),
                k@,
            ),
            i == entries@.len() ==> !has_key(entries_view(entries@), k@),
    {
        let mut i: usize = 0;
        while i < entries.len()
            invariant
                i <= entries@.len(),
                forall|j: int| 0 <= j < i ==> (#[trigger] entries@[j]).0@ != k@,
            decreases entries@.len() - i,
        {
            if entries[i].0.same(k) {
                assert(entries_view(entries@)[i as int].0 == k@);
                return i;
            }
            i = i + 1;
        }
        assert forall|j: int| 0 <= j < entries@.len() implies entries_view(entries@)[j].0
            != k@ by {
            assert(entries@[j].0@ != k@);
        }
        i
    }

    /// Whether there is an entry with the key `k`.
    pub fn contains_key(&self, k: &K) -> (r: bool)
        ensures
            r == has_key(self@, k@),
    {
        Self::find(&self.entries, k) < self.entries.len()
    }

    /// The value of the key `k`.
    pub fn get(&self, k: &K) -> (r: Option<&V>)
        ensures
            match r {
                Some(v) => lookup(self@, k@) == Some(*v),
                None => lookup(self@, k@) is None,
            },
    {
        let i = Self::find(&self.entries, k);
        if i < self.entries.len() {
            proof {
                use_type_invariant(self);
                lemma_position(self@, i as int);
            }
            Some(&self.entries[i].1)
        } else {
            None
        }
    }

    /// Sets the value of `k` to `v`, and hands back the value it had.
    pub fn insert(&mut self, k: K, v: V) -> (r: Option<V>)
        ensures
            final(self)@ == inserted(old(self)@, k@, v),
            r == lookup(old(self)@, k@),
    {
        proof {
            use_type_invariant(&*self);
        }
        let ghost before = self@;
        let mut entries: Vec<(K, V)> = Vec::new();
        std::mem::swap(&mut self.entries, &mut entries);
        let i = Self::find(&entries, &k);
        proof {
            law_inserted(before, k@, v, k@);
        }
        if i < entries.len() {
            proof {
                lemma_position(before, i as int);
            }
            let (_, replaced) = entries.remove(i);
            entries.insert(i, (k, v));
            assert(entries_view(entries@) =~= inserted(before, k@, v));
            self.entries = entries;
            Some(replaced)
        } else {
            entries.push((k, v));
            assert(entries_view(entries@) =~= inserted(before, k@, v));
            self.entries = entries;
            None
        }
    }

    /// Removes the entry with the key `k`, and hands back the value it had.
    pub fn remove(&mut self, k: &K) -> (r: Option<V>)
        ensures
            final(self)@ == removed(old(self)@, k@),
            r == lookup(old(self)@, k@),
    {
        proof {
            use_type_invariant(&*self);
        }
        let ghost before = self@;
        let mut entries: Vec<(K, V)> = Vec::new();
        std::mem::swap(&mut self.entries, &mut entries);
        let i = Self::find(&entries, k);
        proof {
            law_removed(before, k@, k@);
        }
        if i < entries.len() {
            proof {
                lemma_position(before, i as int);
            }
            let (_, value) = entries.remove(i);
            assert(entries_view(entries@) =~= removed(before, k@));
            self.entries = entries;
            Some(value)
        } else {
            assert(entries_view(entries@) =~= removed(before, k@));
            self.entries = entries;
            None
        }
    }

    /// Removes all entries, and hands back their values in order.
    pub fn drain(&mut self) -> (r: Vec<V>)
        ensures
            final(self)@ == Seq::<(K::V, V)>::empty(),
            r@ == old(self)@.map_values(|e: (K::V, V)| e.1),
    {
        let ghost before = self@;
        let mut entries: Vec<(K, V)> = Vec::new();
        assert(entries_view(entries@) =~= Seq::<(K::V, V)>::empty());
        std::mem::swap(&mut self.entries, &mut entries);
        let mut values: Vec<V> = Vec::new();
        let mut reversed: Vec<V> = Vec::new();
        while entries.len() > 0
            invariant
                entries@.len() + reversed@.len() == before.len(),
                entries_view(entries@) == before.take(entries@.len() as int),
                forall|j: int|
                    0 <= j < reversed@.len() ==> reversed@[j] == before[before.len() - 1 - j].1,
            decreases entries@.len(),
        {
            let ghost last = entries@.last();
            let ghost n = entries@.len() as int;
            assert(entries_view(entries@)[n - 1] == before[n - 1]);
            match entries.pop() {
                Some((_, v)) => {
                    assert(entries_view(entries@) =~= before.take(n - 1));
                    reversed.push(v);
                },
                None => {},
            }
        }
        while reversed.len() > 0
            invariant
                values@.len() + reversed@.len() == before.len(),
                forall|j: int|
                    0 <= j < reversed@.len() ==> reversed@[j] == before[before.len() - 1 - j].1,
                forall|j: int| 0 <= j < values@.len() ==> values@[j] == before[j].1,
            decreases reversed@.len(),
        {
            match reversed.pop() {
                Some(v) => {
                    values.push(v);
                },
                None => {},
            }
        }
        assert(values@ =~= before.map_values(|e: (K::V, V)| e.1));
        values
    }
}

/// A key has a value exactly where an entry has the key, and it is the value of that entry.
pub proof fn law_lookup<K, V>(entries: Seq<(K, V)>, k: K, v: V)
    requires
        distinct_keys(entries),
    ensures
        lookup(entries, k) == Some(v) <==> exists|i: int|
            0 <= i < entries.len() && #[trigger] entries[i] == (k, v),
        lookup(entries, k) is None <==> forall|i: int|
            0 <= i < entries.len() ==> (#[trigger] entries[i]).0 != k,
        has_key(entries, k) <==> lookup(entries, k) is Some,
{
    if lookup(entries, k) == Some(v) {
        assert(entries[position(entries, k)] == (k, v));
    }
    if exists|i: int| 0 <= i < entries.len() && #[trigger] entries[i] == (k, v) {
        let i = choose|i: int| 0 <= i < entries.len() && #[trigger] entries[i] == (k, v);
        lemma_position(entries, i);
    }
    if lookup(entries, k) is None {
        assert forall|i: int| 0 <= i < entries.len() implies (#[trigger] entries[i]).0 != k by {
            lemma_position(entries, i);
        }
    }
}

/// Setting the value of a key that is there changes that entry and no other, and the order stays.
/// Setting that of a new key puts it behind all others.
pub proof fn law_inserted_in_place<K, V>(entries: Seq<(K, V)>, k: K, v: V, i: int)
    requires
        distinct_keys(entries),
        0 <= i < entries.len(),
    ensures
        inserted(entries, k, v)[i] == if entries[i].0 == k {
            (k, v)
        } else {
            entries[i]
        },
        has_key(entries, k) ==> inserted(entries, k, v).len() == entries.len(),
        !has_key(entries, k) ==> inserted(entries, k, v).len() == entries.len() + 1 && inserted(
            entries,
            k,
            v,
        )[entries.len() as int] == (k, v),
{
    if entries[i].0 == k {
        lemma_position(entries, i);
    } else if has_key(entries, k) {
        let p = position(entries, k);
        assert(entries[p].0 == k);
    }
}

/// Removing a key takes its entry out and leaves the others in their order.
pub proof fn law_removed_in_place<K, V>(entries: Seq<(K, V)>, i: int, k: K)
    requires
        distinct_keys(entries),
        0 <= i < entries.len(),
    ensures
        removed(entries, entries[i].0) == entries.take(i) + entries.skip(i + 1),
        (forall|j: int| 0 <= j < entries.len() ==> (#[trigger] entries[j]).0 != k) ==> removed(
            entries,
            k,
        ) == entries,
{
    lemma_position(entries, i);
    assert(removed(entries, entries[i].0) =~= entries.take(i) + entries.skip(i + 1));
}

} // verus!
