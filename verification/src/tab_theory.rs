//! Discrete tabulator theories: double theories with tabulators and no other
//! operations than identities and the projections out of tabulators.

use vstd::prelude::*;
use crate::ident::Ident;
use crate::path::{Path, SpecPath};
use crate::theory::DblTheory;
use crate::zero::{Column, FinSet};

verus! {

/// Object type in a discrete tabulator theory.
#[derive(Debug, PartialEq, Eq)]
pub enum TabObType<V, E> {
    /// Basic or generating object type.
    Basic(V),
    /// Tabulator of a morphism type.
    Tabulator(Box<TabMorType<V, E>>),
}

/// Morphism type in a discrete tabulator theory.
#[derive(Debug, PartialEq, Eq)]
pub enum TabMorType<V, E> {
    /// Basic or generating morphism type.
    Basic(E),
    /// Hom type on an object type.
    Hom(Box<TabObType<V, E>>),
}

/// Object operation in a discrete tabulator theory.
#[derive(Debug, PartialEq, Eq)]
pub enum TabObOp<V, E> {
    /// Identity operation on an object type.
    Id(TabObType<V, E>),
    /// Projection from a tabulator onto the source of the morphism type.
    ProjSrc(TabMorType<V, E>),
    /// Projection from a tabulator onto the target of the morphism type.
    ProjTgt(TabMorType<V, E>),
}

/// Morphism operation in a discrete tabulator theory.
#[derive(Debug, PartialEq, Eq)]
pub enum TabMorOp<V, E> {
    /// Identity operation on a path of morphism types.
    Id(Path<TabObType<V, E>, TabMorType<V, E>>),
    /// Projection from the hom type of a tabulator onto the source.
    ProjSrc(TabMorType<V, E>),
    /// Projection from the hom type of a tabulator onto the target.
    ProjTgt(TabMorType<V, E>),
}

/// Compares two object types.
pub fn same_ob_type<V: Ident, E: Ident>(a: &TabObType<V, E>, b: &TabObType<V, E>) -> (r: bool)
    ensures
        r == (*a == *b),
    decreases a,
{
    match (a, b) {
        (TabObType::Basic(x), TabObType::Basic(y)) => x.same(y),
        (TabObType::Tabulator(m), TabObType::Tabulator(n)) => same_mor_type(m, n),
        _ => false,
    }
}

/// Compares two morphism types.
pub fn same_mor_type<V: Ident, E: Ident>(a: &TabMorType<V, E>, b: &TabMorType<V, E>) -> (r: bool)
    ensures
        r == (*a == *b),
    decreases a,
{
    match (a, b) {
        (TabMorType::Basic(e), TabMorType::Basic(f)) => e.same(f),
        (TabMorType::Hom(x), TabMorType::Hom(y)) => same_ob_type(x, y),
        _ => false,
    }
}

/// Duplicates an object type.
pub fn duplicate_ob_type<V: Ident, E: Ident>(a: &TabObType<V, E>) -> (r: TabObType<V, E>)
    ensures
        r == *a,
    decreases a,
{
    match a {
        TabObType::Basic(x) => TabObType::Basic(x.duplicate()),
        TabObType::Tabulator(m) => TabObType::Tabulator(Box::new(duplicate_mor_type(m))),
    }
}

/// Duplicates a morphism type.
pub fn duplicate_mor_type<V: Ident, E: Ident>(a: &TabMorType<V, E>) -> (r: TabMorType<V, E>)
    ensures
        r == *a,
    decreases a,
{
    match a {
        TabMorType::Basic(e) => TabMorType::Basic(e.duplicate()),
        TabMorType::Hom(x) => TabMorType::Hom(Box::new(duplicate_ob_type(x))),
    }
}

impl<V: Ident, E: Ident> Ident for TabObType<V, E> {
    fn same(&self, other: &Self) -> (b: bool) {
        same_ob_type(self, other)
    }

    fn duplicate(&self) -> (r: Self) {
        duplicate_ob_type(self)
    }
}

impl<V: Ident, E: Ident> Ident for TabMorType<V, E> {
    fn same(&self, other: &Self) -> (b: bool) {
        same_mor_type(self, other)
    }

    fn duplicate(&self) -> (r: Self) {
        duplicate_mor_type(self)
    }
}

/// A discrete tabulator theory as a mathematical value.
#[verifier::reject_recursive_types(V)]
#[verifier::reject_recursive_types(E)]
pub struct SpecTabTheory<V, E> {
    /// The basic object types, in the order of their insertion.
    pub ob_types: Seq<V>,
    /// The basic morphism types, in the order of their insertion.
    pub mor_types: Seq<E>,
    /// The source object type of each basic morphism type.
    pub src: Map<E, TabObType<V, E>>,
    /// The target object type of each basic morphism type.
    pub tgt: Map<E, TabObType<V, E>>,
    /// The composite of each pair of basic morphism types that has one.
    pub composites: Map<(E, E), TabMorType<V, E>>,
}

impl<V, E> SpecTabTheory<V, E> {
    /// The theory without types.
    pub open spec fn empty() -> Self {
        SpecTabTheory {
            ob_types: Seq::empty(),
            mor_types: Seq::empty(),
            src: Map::empty(),
            tgt: Map::empty(),
            composites: Map::empty(),
        }
    }

    /// Does the theory have the object type: a basic one that was declared,
    /// or the tabulator of a morphism type that it has?
    pub open spec fn has_ob_type(self, t: TabObType<V, E>) -> bool
        decreases t,
    {
        match t {
            TabObType::Basic(x) => self.ob_types.contains(x),
            TabObType::Tabulator(m) => self.has_mor_type(*m),
        }
    }

    /// Does the theory have the morphism type: a basic one that was declared,
    /// or the hom type of an object type that it has?
    pub open spec fn has_mor_type(self, m: TabMorType<V, E>) -> bool
        decreases m,
    {
        match m {
            TabMorType::Basic(e) => self.mor_types.contains(e),
            TabMorType::Hom(x) => self.has_ob_type(*x),
        }
    }

    /// The source of a morphism type, if it is determined.
    pub open spec fn src_of(self, m: TabMorType<V, E>) -> Option<TabObType<V, E>> {
        match m {
            TabMorType::Basic(e) => self.src.get(e),
            TabMorType::Hom(x) => Some(*x),
        }
    }

    /// The target of a morphism type, if it is determined.
    pub open spec fn tgt_of(self, m: TabMorType<V, E>) -> Option<TabObType<V, E>> {
        match m {
            TabMorType::Basic(e) => self.tgt.get(e),
            TabMorType::Hom(x) => Some(*x),
        }
    }

    /// The composite of `m` followed by `n`, if it is defined: a hom type on
    /// the end where the other type meets it leaves that type as it is, and
    /// two basic types are looked up in the table.
    pub open spec fn compose2(self, m: TabMorType<V, E>, n: TabMorType<V, E>) -> Option<TabMorType<V, E>> {
        if n is Hom && self.tgt_of(m) == Some(*n->Hom_0) {
            Some(m)
        } else if m is Hom && self.src_of(n) == Some(*m->Hom_0) {
            Some(n)
        } else if m is Basic && n is Basic && self.composites.contains_key((m->Basic_0, n->Basic_0)) {
            Some(self.composites[(m->Basic_0, n->Basic_0)])
        } else {
            None
        }
    }

    /// The composite of the first `n` of the morphism types `ms`, taken from the left.
    pub open spec fn compose_prefix(self, ms: Seq<TabMorType<V, E>>, n: nat) -> Option<TabMorType<V, E>>
        decreases n,
    {
        if n == 0 {
            None
        } else if n == 1 {
            Some(ms[0])
        } else {
            match self.compose_prefix(ms, (n - 1) as nat) {
                Some(m) => self.compose2(m, ms[n - 1]),
                None => None,
            }
        }
    }

    /// The composite of a path of morphism types, if it is defined. The
    /// composite of the empty path at an object type is its hom type.
    pub open spec fn compose(self, path: SpecPath<TabObType<V, E>, TabMorType<V, E>>) -> Option<
        TabMorType<V, E>,
    > {
        match path {
            SpecPath::Id(x) => Some(TabMorType::Hom(Box::new(x))),
            SpecPath::Edges(ms) => self.compose_prefix(ms, ms.len()),
        }
    }
}

/// Once a prefix has no composite, no longer prefix has one.
pub proof fn lemma_compose_prefix_none<V, E>(
    th: SpecTabTheory<V, E>,
    ms: Seq<TabMorType<V, E>>,
    k: nat,
    n: nat,
)
    requires
        1 <= k <= n,
        th.compose_prefix(ms, k) is None,
    ensures
        th.compose_prefix(ms, n) is None,
    decreases n - k,
{
    if k < n {
        lemma_compose_prefix_none(th, ms, k + 1, n);
    }
}

/// A discrete tabulator theory.
///
/// Its object types are generated by basic object types and tabulators of
/// morphism types; its morphism types by basic morphism types and hom types
/// of object types.
#[derive(Debug)]
pub struct DiscreteTabTheory<V, E> {
    ob_types: FinSet<V>,
    mor_types: FinSet<E>,
    src: Column<E, TabObType<V, E>>,
    tgt: Column<E, TabObType<V, E>>,
    compose_map: Column<(E, E), TabMorType<V, E>>,
}

/// A discrete tabulator theory with keys of type `Ustr`.
pub type UstrDiscreteTabTheory = DiscreteTabTheory<ustr::Ustr, ustr::Ustr>;

impl<V, E> View for DiscreteTabTheory<V, E> {
    type V = SpecTabTheory<V, E>;

    closed spec fn view(&self) -> SpecTabTheory<V, E> {
        SpecTabTheory {
            ob_types: self.ob_types@,
            mor_types: self.mor_types@,
            src: self.src@,
            tgt: self.tgt@,
            composites: self.compose_map@,
        }
    }
}

impl<V: Ident, E: Ident> DiscreteTabTheory<V, E> {
    /// The stored data is well formed, and every basic morphism type has a
    /// source and a target.
    pub closed spec fn valid(&self) -> bool {
        &&& self.ob_types.wf()
        &&& self.mor_types.wf()
        &&& self.src.wf()
        &&& self.tgt.wf()
        &&& self.compose_map.wf()
        &&& forall|i: int|
            0 <= i < self.mor_types@.len() ==> self.src@.contains_key(#[trigger] self.mor_types@[i])
                && self.tgt@.contains_key(self.mor_types@[i])
    }

    /// In a valid theory every morphism type that the theory has has a source and a target.
    pub proof fn lemma_valid(&self, m: TabMorType<V, E>)
        requires
            self.valid(),
            self@.has_mor_type(m),
        ensures
            self@.src_of(m) is Some,
            self@.tgt_of(m) is Some,
    {
        match m {
            TabMorType::Basic(e) => {
                let i = choose|i: int| 0 <= i < self.mor_types@.len() && self.mor_types@[i] == e;
                assert(self.src@.contains_key(self.mor_types@[i]));
            },
            TabMorType::Hom(_) => {},
        }
    }

    /// Creates an empty theory.
    pub fn new() -> (th: Self)
        ensures
            th.valid(),
            th@ == SpecTabTheory::<V, E>::empty(),
    {
        DiscreteTabTheory {
            ob_types: FinSet::new(),
            mor_types: FinSet::new(),
            src: Column::new(),
            tgt: Column::new(),
            compose_map: Column::new(),
        }
    }

    /// Adds a basic object type to the theory, returning whether it is new.
    pub fn add_ob_type(&mut self, v: V) -> (fresh: bool)
        requires
            old(self).valid(),
        ensures
            final(self).valid(),
            fresh == !old(self)@.ob_types.contains(v),
            final(self)@ == (SpecTabTheory {
                ob_types: if fresh {
                    old(self)@.ob_types.push(v)
                } else {
                    old(self)@.ob_types
                },
                ..old(self)@
            }),
    {
        self.ob_types.insert(v)
    }

    /// Adds a basic morphism type to the theory, returning whether it is new.
    pub fn add_mor_type(&mut self, e: E, src: TabObType<V, E>, tgt: TabObType<V, E>) -> (fresh: bool)
        requires
            old(self).valid(),
        ensures
            final(self).valid(),
            fresh == !old(self)@.mor_types.contains(e),
            final(self)@ == (SpecTabTheory {
                mor_types: if fresh {
                    old(self)@.mor_types.push(e)
                } else {
                    old(self)@.mor_types
                },
                src: old(self)@.src.insert(e, src),
                tgt: old(self)@.tgt.insert(e, tgt),
                ..old(self)@
            }),
    {
        self.src.set(e.duplicate(), src);
        self.tgt.set(e.duplicate(), tgt);
        self.mor_types.insert(e)
    }

    /// Sets the composite of the basic morphism type `d` followed by `e`.
    pub fn set_composite(&mut self, d: E, e: E, f: TabMorType<V, E>)
        requires
            old(self).valid(),
        ensures
            final(self).valid(),
            final(self)@ == (SpecTabTheory {
                composites: old(self)@.composites.insert((d, e), f),
                ..old(self)@
            }),
    {
        self.compose_map.set((d, e), f);
    }

    /// Does the theory have the object type?
    pub fn contains_ob_type(&self, t: &TabObType<V, E>) -> (b: bool)
        ensures
            b == self@.has_ob_type(*t),
        decreases t,
    {
        match t {
            TabObType::Basic(x) => self.ob_types.contains(x),
            TabObType::Tabulator(m) => self.contains_mor_type(m),
        }
    }

    /// Does the theory have the morphism type?
    pub fn contains_mor_type(&self, m: &TabMorType<V, E>) -> (b: bool)
        ensures
            b == self@.has_mor_type(*m),
        decreases m,
    {
        match m {
            TabMorType::Basic(e) => self.mor_types.contains(e),
            TabMorType::Hom(x) => self.contains_ob_type(x),
        }
    }

    /// The source of a morphism type, if it is determined.
    pub fn get_src(&self, m: &TabMorType<V, E>) -> (r: Option<TabObType<V, E>>)
        requires
            self.valid(),
        ensures
            r == self@.src_of(*m),
    {
        match m {
            TabMorType::Basic(e) => match self.src.get(e) {
                Some(x) => Some(x.duplicate()),
                None => None,
            },
            TabMorType::Hom(x) => Some(duplicate_ob_type(x)),
        }
    }

    /// The target of a morphism type, if it is determined.
    pub fn get_tgt(&self, m: &TabMorType<V, E>) -> (r: Option<TabObType<V, E>>)
        requires
            self.valid(),
        ensures
            r == self@.tgt_of(*m),
    {
        match m {
            TabMorType::Basic(e) => match self.tgt.get(e) {
                Some(x) => Some(x.duplicate()),
                None => None,
            },
            TabMorType::Hom(x) => Some(duplicate_ob_type(x)),
        }
    }

    /// The composite of `m` followed by `n`, where it is defined.
    pub fn compose2_types(&self, m: TabMorType<V, E>, n: TabMorType<V, E>) -> (r: Option<
        TabMorType<V, E>,
    >)
        requires
            self.valid(),
        ensures
            r == self@.compose2(m, n),
    {
        if let TabMorType::Hom(y) = &n {
            if let Some(t) = self.get_tgt(&m) {
                if same_ob_type(&t, y) {
                    return Some(m);
                }
            }
        }
        if let TabMorType::Hom(x) = &m {
            if let Some(s) = self.get_src(&n) {
                if same_ob_type(&s, x) {
                    return Some(n);
                }
            }
        }
        match (m, n) {
            (TabMorType::Basic(d), TabMorType::Basic(e)) => match self.compose_map.get(&(d, e)) {
                Some(f) => Some(f.duplicate()),
                None => None,
            },
            _ => None,
        }
    }

    /// The composite of a path of morphism types, where it is defined.
    pub fn try_compose_types(&self, path: &Path<TabObType<V, E>, TabMorType<V, E>>) -> (r: Option<
        TabMorType<V, E>,
    >)
        requires
            self.valid(),
        ensures
            r == self@.compose(path@),
    {
        match path {
            Path::Id(x) => Some(TabMorType::Hom(Box::new(x.duplicate()))),
            Path::Edges { head, tail } => {
                let ghost ms = seq![*head] + tail@;
                let mut acc = head.duplicate();
                let mut i: usize = 0;
                while i < tail.len()
                    invariant
                        self.valid(),
                        i <= tail.len(),
                        ms == seq![*head] + tail@,
                        path@ == SpecPath::<TabObType<V, E>, TabMorType<V, E>>::Edges(ms),
                        Some(acc) == self@.compose_prefix(ms, (i + 1) as nat),
                    decreases tail.len() - i,
                {
                    assert(ms[i + 1] == tail@[i as int]);
                    match self.compose2_types(acc, tail[i].duplicate()) {
                        Some(m) => {
                            acc = m;
                        },
                        None => {
                            proof {
                                lemma_compose_prefix_none(self@, ms, (i + 2) as nat, ms.len());
                            }
                            return None;
                        },
                    }
                    i += 1;
                }
                Some(acc)
            },
        }
    }
}

impl<V: Ident, E: Ident> DblTheory for DiscreteTabTheory<V, E> {
    type ObType = TabObType<V, E>;

    type MorType = TabMorType<V, E>;

    type ObOp = TabObOp<V, E>;

    type MorOp = TabMorOp<V, E>;

    open spec fn wf(&self) -> bool {
        self.valid()
    }

    open spec fn ob_type_known(&self, x: TabObType<V, E>) -> bool {
        self@.has_ob_type(x)
    }

    open spec fn mor_type_known(&self, m: TabMorType<V, E>) -> bool {
        self@.has_mor_type(m)
    }

    open spec fn src_of(&self, m: TabMorType<V, E>) -> TabObType<V, E> {
        self@.src_of(m).unwrap()
    }

    open spec fn tgt_of(&self, m: TabMorType<V, E>) -> TabObType<V, E> {
        self@.tgt_of(m).unwrap()
    }

    open spec fn composite(&self, path: SpecPath<TabObType<V, E>, TabMorType<V, E>>) -> Option<
        TabMorType<V, E>,
    > {
        self@.compose(path)
    }

    fn has_ob_type(&self, x: &TabObType<V, E>) -> (b: bool) {
        self.contains_ob_type(x)
    }

    fn has_mor_type(&self, m: &TabMorType<V, E>) -> (b: bool) {
        self.contains_mor_type(m)
    }

    fn src(&self, m: &TabMorType<V, E>) -> (x: TabObType<V, E>) {
        proof {
            self.lemma_valid(*m);
        }
        self.get_src(m).unwrap()
    }

    fn tgt(&self, m: &TabMorType<V, E>) -> (x: TabObType<V, E>) {
        proof {
            self.lemma_valid(*m);
        }
        self.get_tgt(m).unwrap()
    }

    fn compose_types(&self, path: Path<TabObType<V, E>, TabMorType<V, E>>) -> (m: TabMorType<V, E>) {
        self.try_compose_types(&path).unwrap()
    }
}

} // verus!
