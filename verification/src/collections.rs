//! The contracts' stored collections: a set of addresses that keeps insertion
//! order and removes by swapping the last element into the gap, and a map
//! from keys to values.
use vstd::prelude::*;
use crate::data::Address;

verus! {

/// The sequence `s` with the element at `i` replaced by the last one, and the last one dropped.
pub open spec fn swap_removed<A>(s: Seq<A>, i: int) -> Seq<A> {
    s.update(i, s.last()).drop_last()
}

/// In a sequence without duplicates, the position of the element at `i` is `i`.
pub proof fn lemma_index_of_unique<A>(s: Seq<A>, i: int)
    requires
        s.no_duplicates(),
        0 <= i < s.len(),
    ensures
        s.index_of(s[i]) == i,
        s.contains(s[i]),
{
    assert(s[i] == s[i]);
    let j = s.index_of(s[i]);
    assert(0 <= j < s.len() && s[j] == s[i]);
}

/// Appending an element that is absent keeps a sequence free of duplicates.
pub proof fn lemma_push_unique<A>(s: Seq<A>, a: A)
    requires
        s.no_duplicates(),
        !s.contains(a),
    ensures
        s.push(a).no_duplicates(),
{
    let t = s.push(a);
    assert forall|i: int, j: int| 0 <= i < t.len() && 0 <= j < t.len() && i != j implies t[i]
        != t[j] by {
        if i < s.len() && j < s.len() {
            assert(t[i] == s[i] && t[j] == s[j]);
        } else if i < s.len() {
            assert(t[i] == s[i]);
        } else {
            assert(t[j] == s[j]);
        }
    }
}

/// Removing by swap keeps every other element, drops the removed one, and keeps
/// the sequence free of duplicates.
pub proof fn lemma_swap_removed<A>(s: Seq<A>, i: int)
    requires
        s.no_duplicates(),
        0 <= i < s.len(),
    ensures
        swap_removed(s, i).no_duplicates(),
        swap_removed(s, i).len() == s.len() - 1,
        !swap_removed(s, i).contains(s[i]),
        forall|x: A| x != s[i] ==> (swap_removed(s, i).contains(x) <==> s.contains(x)),
        forall|x: A|
            x != s[i] && s.contains(x) ==> swap_removed(s, i).index_of(x) == if s.index_of(x) == s.len()
                - 1 {
                i
            } else {
                s.index_of(x)
            },
{
    let r = swap_removed(s, i);
    let n = s.len();
    assert forall|a: int, b: int| 0 <= a < r.len() && 0 <= b < r.len() && a != b implies r[a]
        != r[b] by {
        let sa = if a == i {
            n - 1
        } else {
            a
        };
        let sb = if b == i {
            n - 1
        } else {
            b
        };
        assert(r[a] == s[sa]);
        assert(r[b] == s[sb]);
    }
    assert forall|x: A| x != s[i] implies (r.contains(x) <==> s.contains(x)) by {
        if s.contains(x) {
            let p = s.index_of(x);
            assert(s[p] == x);
            let q = if p == n - 1 {
                i
            } else {
                p
            };
            assert(r[q] == x);
        }
        if r.contains(x) {
            let q = choose|q: int| 0 <= q < r.len() && r[q] == x;
            let p = if q == i {
                n - 1
            } else {
                q
            };
            assert(s[p] == x);
        }
    }
    if r.contains(s[i]) {
        let q = choose|q: int| 0 <= q < r.len() && r[q] == s[i];
        let p = if q == i {
            n - 1
        } else {
            q
        };
        assert(s[p] == s[i]);
    }
    assert forall|x: A| x != s[i] && s.contains(x) implies r.index_of(x) == if s.index_of(x) == n
        - 1 {
        i
    } else {
        s.index_of(x)
    } by {
        let p = s.index_of(x);
        assert(s[p] == x);
        let q = if p == n - 1 {
            i
        } else {
            p
        };
        assert(r[q] == x);
        lemma_index_of_unique(r, q);
    }
}

/// A set of addresses in the order they were added; removal moves the last
/// address into the place of the removed one.
#[derive(Debug, PartialEq, Eq)]
pub struct AddressSet {
    items: Vec<Address>,
}

impl View for AddressSet {
    type V = Seq<Address>;

    closed spec fn view(&self) -> Seq<Address> {
        self.items@
    }
}

/// `s` after adding `a`: unchanged when `a` is there already, else `a` appended.
pub open spec fn set_inserted(s: Seq<Address>, a: Address) -> Seq<Address> {
    if s.contains(a) {
        s
    } else {
        s.push(a)
    }
}

/// `s` after removing `a`: unchanged when `a` is absent, else the last address
/// takes its place.
pub open spec fn set_removed(s: Seq<Address>, a: Address) -> Seq<Address> {
    if s.contains(a) {
        swap_removed(s, s.index_of(a))
    } else {
        s
    }
}

/// Adding to a set without duplicates keeps it so, holds the added address,
/// and changes no other membership.
pub proof fn lemma_set_inserted(s: Seq<Address>, a: Address)
    requires
        s.no_duplicates(),
    ensures
        set_inserted(s, a).no_duplicates(),
        set_inserted(s, a).contains(a),
        forall|b: Address| b != a ==> (set_inserted(s, a).contains(b) <==> s.contains(b)),
{
    if !s.contains(a) {
        let t = s.push(a);
        assert(t[t.len() - 1] == a);
        lemma_push_unique(s, a);
        assert forall|b: Address| b != a implies (t.contains(b) <==> s.contains(b)) by {
            if s.contains(b) {
                let i = s.index_of(b);
                assert(t[i] == b);
            }
            if t.contains(b) {
                let j = choose|j: int| 0 <= j < t.len() && t[j] == b;
                assert(s[j] == b);
            }
        }
    }
}

/// Removing from a set without duplicates keeps it so, drops the removed
/// address, and changes no other membership.
pub proof fn lemma_set_removed(s: Seq<Address>, a: Address)
    requires
        s.no_duplicates(),
    ensures
        set_removed(s, a).no_duplicates(),
        !set_removed(s, a).contains(a),
        forall|b: Address| b != a ==> (set_removed(s, a).contains(b) <==> s.contains(b)),
{
    if s.contains(a) {
        let i = s.index_of(a);
        assert(s[i] == a);
        lemma_swap_removed(s, i);
    }
}

impl AddressSet {
    /// No address occurs twice.
    #[verifier::type_invariant]
    spec fn unique(&self) -> bool {
        self.items@.no_duplicates()
    }

    /// The empty set.
    pub fn new() -> (r: AddressSet)
        ensures
            r@ == Seq::<Address>::empty(),
    {
        AddressSet { items: Vec::new() }
    }

    /// Whether `a` is in the set.
    pub fn contains(&self, a: &Address) -> (r: bool)
        ensures
            r == self@.contains(*a),
    {
        self.position(a).is_some()
    }

    fn position(&self, a: &Address) -> (r: Option<usize>)
        ensures
            match r {
                Some(i) => i < self@.len() && self@[i as int] == *a && self@.index_of(*a) == i,
                None => !self@.contains(*a),
            },
    {
        proof {
            use_type_invariant(self);
        }
        let mut i: usize = 0;
        while i < self.items.len()
            invariant
                i <= self.items@.len(),
                self.items@.no_duplicates(),
                forall|j: int| 0 <= j < i ==> self.items@[j] != *a,
            decreases self.items@.len() - i,
        {
            if self.items[i].same(a) {
                proof {
                    lemma_index_of_unique(self.items@, i as int);
                }
                return Some(i);
            }
            i = i + 1;
        }
        None
    }

    /// Adds `a`; says whether it was absent.
    pub fn insert(&mut self, a: Address) -> (r: bool)
        ensures
            r == !old(self)@.contains(a),
            final(self)@ == set_inserted(old(self)@, a),
            final(self)@.contains(a),
    {
        proof {
            use_type_invariant(&*self);
        }
        if self.contains(&a) {
            false
        } else {
            proof {
                lemma_push_unique(self.items@, a);
            }
            let mut items = self.take_items();
            items.push(a);
            assert(items@[items@.len() - 1] == a);
            *self = AddressSet { items };
            true
        }
    }

    /// Removes `a`, moving the last address into its place; says whether it was there.
    pub fn swap_remove(&mut self, a: &Address) -> (r: bool)
        ensures
            r == old(self)@.contains(*a),
            final(self)@ == set_removed(old(self)@, *a),
            !final(self)@.contains(*a),
            forall|b: Address| b != *a ==> (final(self)@.contains(b) <==> old(self)@.contains(b)),
    {
        proof {
            use_type_invariant(&*self);
        }
        match self.position(a) {
            Some(i) => {
                proof {
                    lemma_swap_removed(self.items@, i as int);
                }
                let mut items = self.take_items();
                items.swap_remove(i);
                *self = AddressSet { items };
                true
            },
            None => false,
        }
    }

    /// Empties the set and hands back what it held.
    fn take_items(&mut self) -> (r: Vec<Address>)
        ensures
            r@ == old(self)@,
            final(self)@ == Seq::<Address>::empty(),
    {
        let mut other = AddressSet::new();
        std::mem::swap(self, &mut other);
        let AddressSet { items } = other;
        items
    }

    /// The number of addresses.
    pub fn len(&self) -> (r: usize)
        ensures
            r == self@.len(),
    {
        self.items.len()
    }

    /// The addresses, in stored order.
    pub fn as_slice(&self) -> (r: &[Address])
        ensures
            r@ == self@,
    {
        self.items.as_slice()
    }
}

/// A key that can be compared in executable code.
pub trait MapKey: Copy + Sized {
    fn same_key(&self, other: &Self) -> (r: bool)
        ensures
            r == (*self == *other),
    ;
}

impl MapKey for Address {
    fn same_key(&self, other: &Address) -> (r: bool) {
        self.same(other)
    }
}

impl MapKey for u64 {
    fn same_key(&self, other: &u64) -> (r: bool) {
        *self == *other
    }
}

/// A map from keys to values, as a storage mapper indexed by key.
pub struct KeyedMap<K: MapKey, V> {
    keys: Vec<K>,
    values: Vec<V>,
}

impl<K: MapKey, V> View for KeyedMap<K, V> {
    type V = Map<K, V>;

    closed spec fn view(&self) -> Map<K, V> {
        Map::new(|k: K| self.keys@.contains(k), |k: K| self.values@[self.keys@.index_of(k)])
    }
}

impl<K: MapKey, V> KeyedMap<K, V> {
    /// Keys and values line up, and no key occurs twice.
    #[verifier::type_invariant]
    spec fn well_formed(&self) -> bool {
        &&& self.keys@.len() == self.values@.len()
        &&& self.keys@.no_duplicates()
    }

    /// The empty map.
    pub fn new() -> (r: KeyedMap<K, V>)
        ensures
            r@ == Map::<K, V>::empty(),
    {
        let r = KeyedMap { keys: Vec::new(), values: Vec::new() };
        assert(r@ =~= Map::<K, V>::empty());
        r
    }

    fn position(&self, k: &K) -> (r: Option<usize>)
        ensures
            match r {
                Some(i) => i < self.keys@.len() && self.keys@[i as int] == *k && self.keys@.index_of(
                    *k,
                ) == i,
                None => !self.keys@.contains(*k),
            },
    {
        proof {
            use_type_invariant(self);
        }
        let mut i: usize = 0;
        while i < self.keys.len()
            invariant
                i <= self.keys@.len(),
                self.keys@.no_duplicates(),
                forall|j: int| 0 <= j < i ==> self.keys@[j] != *k,
            decreases self.keys@.len() - i,
        {
            if self.keys[i].same_key(k) {
                proof {
                    lemma_index_of_unique(self.keys@, i as int);
                }
                return Some(i);
            }
            i = i + 1;
        }
        None
    }

    /// Empties the map and hands back its keys and values.
    fn take_parts(&mut self) -> (r: (Vec<K>, Vec<V>))
        ensures
            r.0@ == old(self).keys@,
            r.1@ == old(self).values@,
            final(self)@ == Map::<K, V>::empty(),
    {
        let mut other = KeyedMap::new();
        std::mem::swap(self, &mut other);
        let KeyedMap { keys, values } = other;
        (keys, values)
    }

    /// Whether `k` has a value.
    pub fn contains_key(&self, k: &K) -> (r: bool)
        ensures
            r == self@.dom().contains(*k),
    {
        self.position(k).is_some()
    }

    /// The value of `k`, if any.
    pub fn get(&self, k: &K) -> (r: Option<&V>)
        ensures
            r == if self@.dom().contains(*k) {
                Some(&self@[*k])
            } else {
                None::<&V>
            },
    {
        proof {
            use_type_invariant(self);
        }
        match self.position(k) {
            Some(i) => Some(&self.values[i]),
            None => None,
        }
    }

    /// Sets the value of `k`.
    pub fn insert(&mut self, k: K, v: V)
        ensures
            final(self)@ == old(self)@.insert(k, v),
    {
        proof {
            use_type_invariant(&*self);
        }
        let ghost old_map = self@;
        match self.position(&k) {
            Some(i) => {
                let (keys, mut values) = self.take_parts();
                values.set(i, v);
                *self = KeyedMap { keys, values };
                proof {
                    assert forall|x: K| self.keys@.contains(x) implies self.values@[self.keys@.index_of(
                        x,
                    )] == old_map.insert(k, v)[x] by {
                        if x == k {
                        } else {
                            let p = self.keys@.index_of(x);
                            assert(self.keys@[p] == x);
                        }
                    }
                    assert(self@ =~= old_map.insert(k, v));
                }
            },
            None => {
                let ghost old_keys = self.keys@;
                proof {
                    lemma_push_unique(old_keys, k);
                }
                let (mut keys, mut values) = self.take_parts();
                keys.push(k);
                values.push(v);
                *self = KeyedMap { keys, values };
                proof {
                    let n = old_keys.len();
                    assert(self.keys@[n as int] == k);
                    lemma_index_of_unique(self.keys@, n as int);
                    assert forall|x: K| #[trigger]
                        self.keys@.contains(x) <==> old_map.insert(k, v).dom().contains(x) by {
                        if x != k && self.keys@.contains(x) {
                            let q = choose|q: int| 0 <= q < self.keys@.len() && self.keys@[q] == x;
                            assert(old_keys[q] == x);
                        }
                        if x != k && old_keys.contains(x) {
                            let p = old_keys.index_of(x);
                            assert(self.keys@[p] == x);
                        }
                    }
                    assert forall|x: K| self.keys@.contains(x) implies self.values@[self.keys@.index_of(
                        x,
                    )] == old_map.insert(k, v)[x] by {
                        if x != k {
                            let q = choose|q: int| 0 <= q < self.keys@.len() && self.keys@[q] == x;
                            assert(old_keys[q] == x);
                            lemma_index_of_unique(self.keys@, q);
                            lemma_index_of_unique(old_keys, q);
                        }
                    }
                    assert(self@ =~= old_map.insert(k, v));
                }
            },
        }
    }

    /// Removes the value of `k` and hands it back, if there was one.
    pub fn remove(&mut self, k: &K) -> (r: Option<V>)
        ensures
            final(self)@ == old(self)@.remove(*k),
            r == if old(self)@.dom().contains(*k) {
                Some(old(self)@[*k])
            } else {
                None::<V>
            },
    {
        proof {
            use_type_invariant(&*self);
        }
        let ghost old_map = self@;
        match self.position(k) {
            Some(i) => {
                let ghost old_keys = self.keys@;
                proof {
                    lemma_swap_removed(old_keys, i as int);
                }
                let (mut keys, mut values) = self.take_parts();
                keys.swap_remove(i);
                let v = values.swap_remove(i);
                *self = KeyedMap { keys, values };
                proof {
                    assert forall|x: K| #[trigger]
                        self.keys@.contains(x) <==> old_map.remove(*k).dom().contains(x) by {}
                    assert forall|x: K| self.keys@.contains(x) implies self.values@[self.keys@.index_of(
                        x,
                    )] == old_map.remove(*k)[x] by {
                        let p = old_keys.index_of(x);
                        assert(old_keys[p] == x);
                    }
                    assert(self@ =~= old_map.remove(*k));
                }
                Some(v)
            },
            None => {
                assert(self@ =~= old_map.remove(*k));
                None
            },
        }
    }
}

/// The set stored under `k`; empty when nothing is.
pub open spec fn set_of(m: Map<Address, Seq<Address>>, k: Address) -> Seq<Address> {
    if m.dom().contains(k) {
        m[k]
    } else {
        Seq::empty()
    }
}

/// No stored set holds an address twice.
pub open spec fn sets_unique(m: Map<Address, Seq<Address>>) -> bool {
    forall|k: Address| #[trigger] m.dom().contains(k) ==> m[k].no_duplicates()
}

/// A set of addresses for each address, as a storage mapper of sets indexed by address.
pub struct AddressSetMap {
    sets: KeyedMap<Address, AddressSet>,
}

impl View for AddressSetMap {
    type V = Map<Address, Seq<Address>>;

    closed spec fn view(&self) -> Map<Address, Seq<Address>> {
        self.sets@.map_values(|s: AddressSet| s@)
    }
}

impl AddressSetMap {
    /// Every stored set is free of duplicates.
    #[verifier::type_invariant]
    spec fn all_unique(&self) -> bool {
        forall|k: Address| #[trigger] self.sets@.dom().contains(k) ==> self.sets@[k]@.no_duplicates()
    }

    /// No set stored.
    pub fn new() -> (r: AddressSetMap)
        ensures
            r@ == Map::<Address, Seq<Address>>::empty(),
    {
        let r = AddressSetMap { sets: KeyedMap::new() };
        assert(r@ =~= Map::<Address, Seq<Address>>::empty());
        r
    }

    /// No stored set holds an address twice.
    pub fn unique(&self)
        ensures
            sets_unique(self@),
    {
        proof {
            use_type_invariant(self);
        }
    }

    /// Empties the map and hands back what it held.
    fn take_sets(&mut self) -> (r: KeyedMap<Address, AddressSet>)
        ensures
            r@ == old(self).sets@,
            forall|k: Address| #[trigger] r@.dom().contains(k) ==> r@[k]@.no_duplicates(),
            final(self)@ == Map::<Address, Seq<Address>>::empty(),
    {
        let mut other = AddressSetMap::new();
        std::mem::swap(self, &mut other);
        proof {
            use_type_invariant(&other);
        }
        let AddressSetMap { sets } = other;
        sets
    }

    /// The addresses stored under `k`, in stored order.
    pub fn members(&self, k: &Address) -> (r: Vec<Address>)
        ensures
            r@ == set_of(self@, *k),
    {
        let mut out: Vec<Address> = Vec::new();
        match self.sets.get(k) {
            Some(set) => {
                let items = set.as_slice();
                let mut i: usize = 0;
                while i < items.len()
                    invariant
                        i <= items@.len(),
                        out@ =~= items@.take(i as int),
                    decreases items@.len() - i,
                {
                    out.push(items[i]);
                    i = i + 1;
                }
                assert(items@.take(i as int) =~= items@);
            },
            None => {},
        }
        out
    }

    /// Whether `a` is in the set stored under `k`.
    pub fn contains(&self, k: &Address, a: &Address) -> (r: bool)
        ensures
            r == set_of(self@, *k).contains(*a),
    {
        match self.sets.get(k) {
            Some(set) => set.contains(a),
            None => false,
        }
    }

    /// Adds `a` to the set stored under `k`.
    pub fn insert(&mut self, k: Address, a: Address)
        ensures
            final(self)@ == old(self)@.insert(k, set_inserted(set_of(old(self)@, k), a)),
            sets_unique(final(self)@),
            set_of(final(self)@, k).contains(a),
    {
        proof {
            use_type_invariant(&*self);
        }
        let ghost before = self@;
        let mut sets = self.take_sets();
        let mut set = match sets.remove(&k) {
            Some(s) => s,
            None => AddressSet::new(),
        };
        assert(set@ == set_of(before, k));
        set.insert(a);
        proof {
            use_type_invariant(&set);
        }
        sets.insert(k, set);
        *self = AddressSetMap { sets };
        assert(self@ =~= before.insert(k, set_inserted(set_of(before, k), a)));
        proof {
            use_type_invariant(&*self);
        }
    }

    /// Removes `a` from the set stored under `k`, moving the last address into its place.
    pub fn swap_remove(&mut self, k: &Address, a: &Address)
        ensures
            final(self)@ == if old(self)@.dom().contains(*k) {
                old(self)@.insert(*k, set_removed(old(self)@[*k], *a))
            } else {
                old(self)@
            },
            sets_unique(final(self)@),
            !set_of(final(self)@, *k).contains(*a),
    {
        proof {
            use_type_invariant(&*self);
        }
        let ghost before = self@;
        let mut sets = self.take_sets();
        match sets.remove(k) {
            Some(s) => {
                let mut set = s;
                set.swap_remove(a);
                proof {
                    use_type_invariant(&set);
                }
                sets.insert(*k, set);
                *self = AddressSetMap { sets };
                assert(self@ =~= before.insert(*k, set_removed(before[*k], *a)));
            },
            None => {
                *self = AddressSetMap { sets };
                assert(self@ =~= before);
            },
        }
        proof {
            use_type_invariant(&*self);
        }
    }
}

} // verus!
