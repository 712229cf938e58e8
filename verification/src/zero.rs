//! Finite sets and columns (finite maps), kept in insertion order.

use vstd::prelude::*;
use crate::ident::Ident;

verus! {

/// Position of the first occurrence of `x` in `s`, if any.
pub fn position<T: Ident>(s: &Vec<T>, x: &T) -> (r: Option<usize>)
    ensures
        match r {
            Some(i) => i < s.len() && s@[i as int] == *x && forall|j: int|
                0 <= j < i ==> s@[j] != *x,
            None => !s@.contains(*x),
        },
{
    let mut i: usize = 0;
    while i < s.len()
        invariant
            i <= s.len(),
            forall|j: int| 0 <= j < i ==> s@[j] != *x,
        decreases s.len() - i,
    {
        if s[i].same(x) {
            return Some(i);
        }
        i += 1;
    }
    None
}

/// A finite set whose elements are enumerated in the order of their insertion.
#[derive(Debug)]
pub struct FinSet<T> {
    items: Vec<T>,
}

impl<T> View for FinSet<T> {
    type V = Seq<T>;

    /// The elements, in the order of their insertion.
    closed spec fn view(&self) -> Seq<T> {
        self.items@
    }
}

impl<T: Ident> FinSet<T> {
    /// No element occurs twice.
    pub open spec fn wf(&self) -> bool {
        self@.no_duplicates()
    }

    /// The empty set.
    pub fn new() -> (s: Self)
        ensures
            s@ == Seq::<T>::empty(),
            s.wf(),
    {
        FinSet { items: Vec::new() }
    }

    /// Number of elements.
    pub fn len(&self) -> (n: usize)
        ensures
            n == self@.len(),
    {
        self.items.len()
    }

    /// Is the set empty?
    pub fn is_empty(&self) -> (b: bool)
        ensures
            b == (self@.len() == 0),
    {
        self.items.len() == 0
    }

    /// Does the set contain `x`?
    pub fn contains(&self, x: &T) -> (b: bool)
        ensures
            b == self@.contains(*x),
    {
        position(&self.items, x).is_some()
    }

    /// Inserts `x`, returning whether it was not yet in the set.
    pub fn insert(&mut self, x: T) -> (fresh: bool)
        requires
            old(self).wf(),
        ensures
            final(self).wf(),
            fresh == !old(self)@.contains(x),
            final(self)@ == if fresh {
                old(self)@.push(x)
            } else {
                old(self)@
            },
    {
        if position(&self.items, &x).is_some() {
            false
        } else {
            self.items.push(x);
            true
        }
    }

    /// The element at position `i` of the enumeration.
    pub fn get(&self, i: usize) -> (x: &T)
        requires
            i < self@.len(),
        ensures
            *x == self@[i as int],
    {
        &self.items[i]
    }

    /// The elements, in the order of their insertion.
    pub fn to_vec(&self) -> (v: Vec<T>)
        ensures
            v@ == self@,
    {
        let mut v: Vec<T> = Vec::new();
        let mut i: usize = 0;
        while i < self.items.len()
            invariant
                i <= self.items.len(),
                v@ == self.items@.take(i as int),
            decreases self.items.len() - i,
        {
            v.push(self.items[i].duplicate());
            assert(self.items@.take(i + 1) == self.items@.take(i as int).push(self.items@[i as int]));
            i += 1;
        }
        assert(self.items@.take(self.items.len() as int) == self.items@);
        v
    }

    /// Do both sets hold the same elements, whatever their order?
    pub fn same_elements(&self, other: &Self) -> (b: bool)
        ensures
            self.wf() && other.wf() ==> b == (self@.to_set() == other@.to_set()),
    {
        if self.items.len() != other.items.len() {
            proof {
                if self.wf() && other.wf() {
                    self@.unique_seq_to_set();
                    other@.unique_seq_to_set();
                }
            }
            return false;
        }
        let mut i: usize = 0;
        while i < self.items.len()
            invariant
                i <= self.items.len(),
                forall|j: int| 0 <= j < i ==> other@.contains(self@[j]),
            decreases self.items.len() - i,
        {
            if !other.contains(&self.items[i]) {
                assert(self@.to_set().contains(self@[i as int]));
                assert(!other@.to_set().contains(self@[i as int]));
                return false;
            }
            i += 1;
        }
        proof {
            if self.wf() && other.wf() {
                self@.unique_seq_to_set();
                other@.unique_seq_to_set();
                assert(self@.to_set().subset_of(other@.to_set())) by {
                    assert forall|x: T| self@.to_set().contains(x) implies other@.to_set().contains(
                        x,
                    ) by {
                        let j = choose|j: int| 0 <= j < self@.len() && self@[j] == x;
                        assert(other@.contains(self@[j]));
                    }
                }
                vstd::set_lib::lemma_set_subset_finite(other@.to_set(), self@.to_set());
                vstd::set_lib::lemma_subset_equality(self@.to_set(), other@.to_set());
            }
        }
        true
    }
}

/// A column: a finite map whose keys are enumerated in the order of their insertion.
#[derive(Debug)]
pub struct Column<K, V> {
    keys: Vec<K>,
    vals: Vec<V>,
}

impl<K, V> View for Column<K, V> {
    type V = Map<K, V>;

    /// The map from each key to its value.
    open spec fn view(&self) -> Map<K, V> {
        Map::new(|k: K| self.keys().contains(k), |k: K| self.vals()[self.keys().index_of(k)])
    }
}

impl<K, V> Column<K, V> {
    /// The keys, in the order of their insertion.
    pub closed spec fn keys(&self) -> Seq<K> {
        self.keys@
    }

    /// The values, each at the position of its key.
    pub closed spec fn vals(&self) -> Seq<V> {
        self.vals@
    }

    /// No key occurs twice, and every key has a value.
    pub open spec fn wf(&self) -> bool {
        &&& self.keys().no_duplicates()
        &&& self.keys().len() == self.vals().len()
    }

    /// In a well-formed column the key at each position is mapped to the value there.
    pub proof fn lemma_entry(&self, i: int)
        requires
            self.wf(),
            0 <= i < self.keys().len(),
        ensures
            self@.contains_key(self.keys()[i]),
            self@[self.keys()[i]] == self.vals()[i],
    {
        let k = self.keys()[i];
        let j = self.keys().index_of(k);
        assert(0 <= j < self.keys().len() && self.keys()[j] == k);
    }
}

impl<K: Ident, V> Column<K, V> {
    /// The empty column.
    pub fn new() -> (c: Self)
        ensures
            c.wf(),
            c.keys() == Seq::<K>::empty(),
            c.vals() == Seq::<V>::empty(),
            c@ == Map::<K, V>::empty(),
    {
        let c = Column { keys: Vec::new(), vals: Vec::new() };
        assert(c@ =~= Map::<K, V>::empty());
        c
    }

    /// Number of keys.
    pub fn len(&self) -> (n: usize)
        ensures
            n == self.keys().len(),
    {
        self.keys.len()
    }

    /// The position of the key `k` in the enumeration, if it is a key.
    pub fn key_position(&self, k: &K) -> (r: Option<usize>)
        ensures
            match r {
                Some(i) => i < self.keys().len() && self.keys()[i as int] == *k,
                None => !self.keys().contains(*k),
            },
    {
        position(&self.keys, k)
    }

    /// Does every key have a value? A well-formed column passes this test.
    pub fn aligned(&self) -> (b: bool)
        ensures
            b == (self.keys().len() == self.vals().len()),
    {
        self.keys.len() == self.vals.len()
    }

    /// The key at position `i` of the enumeration.
    pub fn key_at(&self, i: usize) -> (k: &K)
        requires
            i < self.keys().len(),
        ensures
            *k == self.keys()[i as int],
    {
        &self.keys[i]
    }

    /// The value at position `i` of the enumeration.
    pub fn val_at(&self, i: usize) -> (v: &V)
        requires
            i < self.vals().len(),
        ensures
            *v == self.vals()[i as int],
    {
        &self.vals[i]
    }

    /// Is `k` a key of the column?
    pub fn contains_key(&self, k: &K) -> (b: bool)
        ensures
            b == self@.contains_key(*k),
    {
        position(&self.keys, k).is_some()
    }

    /// The value of `k`, if it has one.
    pub fn get(&self, k: &K) -> (r: Option<&V>)
        requires
            self.wf(),
        ensures
            match r {
                Some(v) => self@.contains_key(*k) && *v == self@[*k],
                None => !self@.contains_key(*k),
            },
    {
        match position(&self.keys, k) {
            Some(i) => {
                proof {
                    self.lemma_entry(i as int);
                }
                Some(&self.vals[i])
            },
            None => None,
        }
    }

    /// Sets the value of `k`, returning the value it had before, if any.
    ///
    /// A new key is put at the end of the enumeration; a key that is already
    /// there keeps its position.
    pub fn set(&mut self, k: K, v: V) -> (prev: Option<V>)
        requires
            old(self).wf(),
        ensures
            final(self).wf(),
            final(self)@ == old(self)@.insert(k, v),
            prev == old(self)@.get(k),
            final(self).keys() == if old(self)@.contains_key(k) {
                old(self).keys()
            } else {
                old(self).keys().push(k)
            },
            final(self).vals() == if old(self)@.contains_key(k) {
                old(self).vals().update(old(self).keys().index_of(k), v)
            } else {
                old(self).vals().push(v)
            },
    {
        let ghost before = *self;
        match position(&self.keys, &k) {
            Some(i) => {
                proof {
                    before.lemma_entry(i as int);
                    assert(before.keys().index_of(k) == i);
                }
                self.vals.push(v);
                let prev = self.vals.swap_remove(i);
                assert(self.vals@ == before.vals@.update(i as int, v));
                assert(self@ =~= before@.insert(k, v)) by {
                    assert forall|x: K| self@.contains_key(x) implies #[trigger] self@[x]
                        == before@.insert(k, v)[x] by {
                        let j = self.keys().index_of(x);
                        assert(0 <= j < self.keys().len() && self.keys()[j] == x);
                        self.lemma_entry(j);
                        before.lemma_entry(j);
                    }
                }
                Some(prev)
            },
            None => {
                self.keys.push(k);
                self.vals.push(v);
                assert(self.keys().no_duplicates());
                assert(self@ =~= before@.insert(k, v)) by {
                    assert forall|x: K| self@.contains_key(x) <==> before@.insert(
                        k,
                        v,
                    ).contains_key(x) by {
                        if before.keys().contains(x) {
                            let j = before.keys().index_of(x);
                            assert(self.keys()[j] == x);
                        }
                        if x == k {
                            assert(self.keys()[before.keys().len() as int] == x);
                        }
                    }
                    assert forall|x: K| self@.contains_key(x) implies #[trigger] self@[x]
                        == before@.insert(k, v)[x] by {
                        let j = self.keys().index_of(x);
                        assert(0 <= j < self.keys().len() && self.keys()[j] == x);
                        self.lemma_entry(j);
                        if j < before.keys().len() {
                            before.lemma_entry(j);
                        }
                    }
                }
                None
            },
        }
    }
}

impl<K: Ident, V: Ident> Column<K, V> {
    /// The keys that are mapped to `v`, in the order of their insertion.
    pub fn preimage(&self, v: &V) -> (r: Vec<K>)
        requires
            self.wf(),
        ensures
            r@ == self.keys().filter(|k: K| self@[k] == *v),
    {
        let ghost pred = |k: K| self@[k] == *v;
        let mut r: Vec<K> = Vec::new();
        let mut i: usize = 0;
        proof {
            reveal(Seq::filter);
        }
        while i < self.keys.len()
            invariant
                self.wf(),
                i <= self.keys.len(),
                pred == (|k: K| self@[k] == *v),
                r@ == self.keys().take(i as int).filter(pred),
            decreases self.keys.len() - i,
        {
            proof {
                reveal(Seq::filter);
                self.lemma_entry(i as int);
                let t = self.keys().take(i + 1);
                assert(t.drop_last() == self.keys().take(i as int));
                assert(t.last() == self.keys()[i as int]);
                assert(pred(self.keys()[i as int]) == (self.vals()[i as int] == *v));
            }
            if self.vals[i].same(v) {
                r.push(self.keys[i].duplicate());
            }
            i += 1;
        }
        assert(self.keys().take(self.keys.len() as int) == self.keys());
        r
    }

    /// Do both columns map the same keys to the same values, whatever their order?
    pub fn same_entries(&self, other: &Self) -> (b: bool)
        ensures
            self.wf() && other.wf() ==> b == (self@ == other@),
    {
        if !self.aligned() || !other.aligned() {
            return false;
        }
        if self.keys.len() != other.keys.len() {
            proof {
                if self.wf() && other.wf() {
                    self.keys().unique_seq_to_set();
                    other.keys().unique_seq_to_set();
                    assert(self@.dom() =~= self.keys().to_set());
                    assert(other@.dom() =~= other.keys().to_set());
                }
            }
            return false;
        }
        let mut i: usize = 0;
        while i < self.keys.len()
            invariant
                self.keys().len() == self.vals().len(),
                other.keys().len() == other.vals().len(),
                i <= self.keys.len(),
                self.wf() && other.wf() ==> forall|j: int|
                    0 <= j < i ==> other@.contains_key(#[trigger] self.keys()[j]) && other@[self.keys()[j]]
                        == self@[self.keys()[j]],
            decreases self.keys.len() - i,
        {
            proof {
                if self.wf() && other.wf() {
                    self.lemma_entry(i as int);
                }
            }
            match position(&other.keys, &self.keys[i]) {
                Some(j) => {
                    proof {
                        if self.wf() && other.wf() {
                            other.lemma_entry(j as int);
                        }
                    }
                    if !self.vals[i].same(&other.vals[j]) {
                        return false;
                    }
                },
                None => {
                    return false;
                },
            }
            i += 1;
        }
        proof {
            if self.wf() && other.wf() {
                self.keys().unique_seq_to_set();
                other.keys().unique_seq_to_set();
                assert(self@.dom() =~= self.keys().to_set());
                assert(other@.dom() =~= other.keys().to_set());
                assert(self@.dom().subset_of(other@.dom())) by {
                    assert forall|x: K| self@.dom().contains(x) implies other@.dom().contains(x) by {
                        let j = choose|j: int| 0 <= j < self.keys().len() && self.keys()[j] == x;
                        assert(other@.contains_key(self.keys()[j]));
                    }
                }
                vstd::set_lib::lemma_set_subset_finite(other@.dom(), self@.dom());
                vstd::set_lib::lemma_subset_equality(self@.dom(), other@.dom());
                assert(self@ =~= other@) by {
                    assert forall|x: K| self@.contains_key(x) implies #[trigger] self@[x] == other@[x] by {
                        let j = choose|j: int| 0 <= j < self.keys().len() && self.keys()[j] == x;
                        assert(other@[self.keys()[j]] == self@[self.keys()[j]]);
                    }
                }
            }
        }
        true
    }
}

/// The concatenation of the sequences that `f` gives for the elements of `s`, in order.
pub open spec fn concat_map<A, B>(s: Seq<A>, f: spec_fn(A) -> Seq<B>) -> Seq<B>
    decreases s.len(),
{
    if s.len() == 0 {
        Seq::empty()
    } else {
        concat_map(s.drop_last(), f) + f(s.last())
    }
}

/// Extending the prefix of `s` by one element appends what `f` gives for it.
pub proof fn lemma_concat_map_step<A, B>(s: Seq<A>, f: spec_fn(A) -> Seq<B>, i: int)
    requires
        0 <= i < s.len(),
    ensures
        concat_map(s.take(i + 1), f) == concat_map(s.take(i), f) + f(s[i]),
{
    assert(s.take(i + 1).drop_last() == s.take(i));
}

} // verus!
