//! Double theories, as far as models consult them, and discrete double theories.

use vstd::prelude::*;
use crate::graph::{Graph, SpecGraph};
use crate::ident::Ident;
use crate::path::{Path, SpecPath};
use crate::zero::Column;

verus! {

/// A double theory, seen through the queries that its models make.
///
/// A theory declares object types and morphism types, gives each morphism
/// type a source and a target object type, and composes paths of morphism
/// types. Models only read their theory.
pub trait DblTheory {
    /// Object types of the theory.
    type ObType: Ident;

    /// Morphism types of the theory.
    type MorType: Ident;

    /// Operations on objects.
    type ObOp;

    /// Operations on morphisms.
    type MorOp;

    /// The theory's own data is well formed.
    spec fn wf(&self) -> bool;

    /// Does the theory declare the object type `x`?
    spec fn ob_type_known(&self, x: Self::ObType) -> bool;

    /// Does the theory declare the morphism type `m`?
    spec fn mor_type_known(&self, m: Self::MorType) -> bool;

    /// The source object type of a declared morphism type.
    spec fn src_of(&self, m: Self::MorType) -> Self::ObType;

    /// The target object type of a declared morphism type.
    spec fn tgt_of(&self, m: Self::MorType) -> Self::ObType;

    /// The composite of a path of morphism types, where the theory defines it.
    spec fn composite(&self, path: SpecPath<Self::ObType, Self::MorType>) -> Option<Self::MorType>;

    /// Does the theory declare the object type?
    fn has_ob_type(&self, x: &Self::ObType) -> (b: bool)
        requires
            self.wf(),
        ensures
            b == self.ob_type_known(*x),
    ;

    /// Does the theory declare the morphism type?
    fn has_mor_type(&self, m: &Self::MorType) -> (b: bool)
        requires
            self.wf(),
        ensures
            b == self.mor_type_known(*m),
    ;

    /// The source object type of a declared morphism type.
    fn src(&self, m: &Self::MorType) -> (x: Self::ObType)
        requires
            self.wf(),
            self.mor_type_known(*m),
        ensures
            x == self.src_of(*m),
    ;

    /// The target object type of a declared morphism type.
    fn tgt(&self, m: &Self::MorType) -> (x: Self::ObType)
        requires
            self.wf(),
            self.mor_type_known(*m),
        ensures
            x == self.tgt_of(*m),
    ;

    /// The composite of a path of morphism types that the theory can compose.
    fn compose_types(&self, path: Path<Self::ObType, Self::MorType>) -> (m: Self::MorType)
        requires
            self.wf(),
            self.composite(path@) is Some,
        ensures
            Some(m) == self.composite(path@),
    ;
}

/// A morphism of a finite category: an identity or a generator.
#[derive(Debug, PartialEq, Eq)]
pub enum FinMor<V, E> {
    /// The identity morphism on an object.
    Id(V),
    /// A generating morphism.
    Generator(E),
}

impl<V: Ident, E: Ident> Ident for FinMor<V, E> {
    fn same(&self, other: &Self) -> (b: bool) {
        match (self, other) {
            (FinMor::Id(v), FinMor::Id(w)) => v.same(w),
            (FinMor::Generator(e), FinMor::Generator(f)) => e.same(f),
            _ => false,
        }
    }

    fn duplicate(&self) -> (r: Self) {
        match self {
            FinMor::Id(v) => FinMor::Id(v.duplicate()),
            FinMor::Generator(e) => FinMor::Generator(e.duplicate()),
        }
    }
}

/// A finite category as a mathematical value: a graph of generators and a
/// table of composites of pairs of generating morphisms.
#[verifier::reject_recursive_types(E)]
pub struct SpecFinCategory<V, E> {
    /// The graph of object and morphism generators.
    pub graph: SpecGraph<V, E>,
    /// The composite of each pair of generating morphisms that has one.
    pub composites: Map<(E, E), FinMor<V, E>>,
}

impl<V, E> SpecFinCategory<V, E> {
    /// Is `m` a morphism of the category?
    pub open spec fn has_mor(self, m: FinMor<V, E>) -> bool {
        match m {
            FinMor::Id(v) => self.graph.has_vertex(v),
            FinMor::Generator(e) => self.graph.has_edge(e),
        }
    }

    /// The domain of a morphism.
    pub open spec fn dom(self, m: FinMor<V, E>) -> V {
        match m {
            FinMor::Id(v) => v,
            FinMor::Generator(e) => self.graph.src[e],
        }
    }

    /// The codomain of a morphism.
    pub open spec fn cod(self, m: FinMor<V, E>) -> V {
        match m {
            FinMor::Id(v) => v,
            FinMor::Generator(e) => self.graph.tgt[e],
        }
    }

    /// The composite of `m` followed by `n`, if it is defined: an identity
    /// leaves the other morphism as it is, and two generators are looked up
    /// in the table, provided the first ends where the second starts.
    pub open spec fn compose2(self, m: FinMor<V, E>, n: FinMor<V, E>) -> Option<FinMor<V, E>> {
        match (m, n) {
            (FinMor::Id(_), _) => Some(n),
            (_, FinMor::Id(_)) => Some(m),
            (FinMor::Generator(d), FinMor::Generator(e)) => if self.graph.joined(d, e)
                && self.composites.contains_key((d, e)) {
                Some(self.composites[(d, e)])
            } else {
                None
            },
        }
    }

    /// The composite of the first `n` of the morphisms `ms`, taken from the left.
    pub open spec fn compose_prefix(self, ms: Seq<FinMor<V, E>>, n: nat) -> Option<FinMor<V, E>>
        decreases n,
    {
        if n == 0 {
            None
        } else if n == 1 {
            Some(ms[0])
        } else {
            match self.compose_prefix(ms, (n - 1) as nat) {
                Some(m) => self.compose2(m, ms[n - 1]),
                None => None,
            }
        }
    }

    /// The composite of a path of morphisms, if it is defined.
    pub open spec fn compose(self, path: SpecPath<V, FinMor<V, E>>) -> Option<FinMor<V, E>> {
        match path {
            SpecPath::Id(x) => Some(FinMor::Id(x)),
            SpecPath::Edges(ms) => self.compose_prefix(ms, ms.len()),
        }
    }
}

/// A finite category with explicitly tabulated composites.
#[derive(Debug)]
pub struct FinCategory<V, E> {
    generators: Graph<V, E>,
    compose_map: Column<(E, E), FinMor<V, E>>,
}

/// A finite category with objects and morphisms of type `Ustr`.
pub type UstrFinCategory = FinCategory<ustr::Ustr, ustr::Ustr>;

impl<V, E> View for FinCategory<V, E> {
    type V = SpecFinCategory<V, E>;

    closed spec fn view(&self) -> SpecFinCategory<V, E> {
        SpecFinCategory { graph: self.generators@, composites: self.compose_map@ }
    }
}

impl<V: Ident, E: Ident> FinCategory<V, E> {
    /// The stored data is well formed, and every morphism generator has a
    /// domain and a codomain.
    pub closed spec fn wf(&self) -> bool {
        &&& self.generators.wf()
        &&& self.compose_map.wf()
        &&& forall|i: int|
            0 <= i < self.generators@.edges.len() ==> self.generators@.src.contains_key(
                #[trigger] self.generators@.edges[i],
            ) && self.generators@.tgt.contains_key(self.generators@.edges[i])
    }

    /// The category without objects and morphisms.
    pub fn new() -> (c: Self)
        ensures
            c.wf(),
            c@.graph == SpecGraph::<V, E>::empty(),
            c@.composites == Map::<(E, E), FinMor<V, E>>::empty(),
    {
        FinCategory { generators: Graph::new(), compose_map: Column::new() }
    }

    /// Adds an object generator, returning whether it is new.
    pub fn add_ob_generator(&mut self, v: V) -> (fresh: bool)
        requires
            old(self).wf(),
        ensures
            final(self).wf(),
            fresh == !old(self)@.graph.has_vertex(v),
            final(self)@ == (SpecFinCategory { graph: old(self)@.graph.with_vertex(v), ..old(self)@ }),
    {
        self.generators.add_vertex(v)
    }

    /// Adds a morphism generator with its domain and codomain, returning whether it is new.
    pub fn add_mor_generator(&mut self, e: E, dom: V, cod: V) -> (fresh: bool)
        requires
            old(self).wf(),
        ensures
            final(self).wf(),
            fresh == !old(self)@.graph.has_edge(e),
            final(self)@ == (SpecFinCategory {
                graph: SpecGraph {
                    src: old(self)@.graph.src.insert(e, dom),
                    tgt: old(self)@.graph.tgt.insert(e, cod),
                    ..old(self)@.graph.with_edge(e)
                },
                ..old(self)@
            }),
    {
        self.generators.add_edge(e, dom, cod)
    }

    /// Sets the composite of the generating morphism `d` followed by `e`.
    pub fn set_composite(&mut self, d: E, e: E, f: FinMor<V, E>)
        requires
            old(self).wf(),
        ensures
            final(self).wf(),
            final(self)@ == (SpecFinCategory {
                composites: old(self)@.composites.insert((d, e), f),
                ..old(self)@
            }),
    {
        self.compose_map.set((d, e), f);
    }

    /// Is `x` an object of the category?
    pub fn has_ob(&self, x: &V) -> (b: bool)
        requires
            self.wf(),
        ensures
            b == self@.graph.has_vertex(*x),
    {
        self.generators.has_vertex(x)
    }

    /// Is `m` a morphism of the category?
    pub fn has_mor(&self, m: &FinMor<V, E>) -> (b: bool)
        requires
            self.wf(),
        ensures
            b == self@.has_mor(*m),
    {
        match m {
            FinMor::Id(v) => self.generators.has_vertex(v),
            FinMor::Generator(e) => self.generators.has_edge(e),
        }
    }

    /// The domain of a morphism of the category.
    pub fn dom(&self, m: &FinMor<V, E>) -> (x: V)
        requires
            self.wf(),
            self@.has_mor(*m),
        ensures
            x == self@.dom(*m),
    {
        match m {
            FinMor::Id(v) => v.duplicate(),
            FinMor::Generator(e) => self.generators.get_src(e).unwrap().duplicate(),
        }
    }

    /// The codomain of a morphism of the category.
    pub fn cod(&self, m: &FinMor<V, E>) -> (x: V)
        requires
            self.wf(),
            self@.has_mor(*m),
        ensures
            x == self@.cod(*m),
    {
        match m {
            FinMor::Id(v) => v.duplicate(),
            FinMor::Generator(e) => self.generators.get_tgt(e).unwrap().duplicate(),
        }
    }

    /// The composite of `m` followed by `n`, where it is defined.
    pub fn compose2(&self, m: FinMor<V, E>, n: FinMor<V, E>) -> (r: Option<FinMor<V, E>>)
        requires
            self.wf(),
        ensures
            r == self@.compose2(m, n),
    {
        match (m, n) {
            (FinMor::Id(_), n) => Some(n),
            (m, FinMor::Id(_)) => Some(m),
            (FinMor::Generator(d), FinMor::Generator(e)) => {
                if !self.generators.joined(&d, &e) {
                    return None;
                }
                match self.compose_map.get(&(d, e)) {
                    Some(f) => Some(f.duplicate()),
                    None => None,
                }
            },
        }
    }

    /// The composite of a path of morphisms, where it is defined.
    pub fn compose(&self, path: Path<V, FinMor<V, E>>) -> (r: Option<FinMor<V, E>>)
        requires
            self.wf(),
        ensures
            r == self@.compose(path@),
    {
        match &path {
            Path::Id(x) => Some(FinMor::Id(x.duplicate())),
            Path::Edges { head, tail } => {
                let ghost ms = seq![*head] + tail@;
                let mut acc = head.duplicate();
                let mut i: usize = 0;
                while i < tail.len()
                    invariant
                        self.wf(),
                        i <= tail.len(),
                        ms == seq![*head] + tail@,
                        path@ == SpecPath::<V, FinMor<V, E>>::Edges(ms),
                        Some(acc) == self@.compose_prefix(ms, (i + 1) as nat),
                    decreases tail.len() - i,
                {
                    assert(ms[i + 1] == tail@[i as int]);
                    match self.compose2(acc, tail[i].duplicate()) {
                        Some(m) => {
                            acc = m;
                        },
                        None => {
                            proof {
                                lemma_compose_prefix_none(self@, ms, (i + 2) as nat, ms.len());
                            }
                            return None;
                        },
                    }
                    i += 1;
                }
                Some(acc)
            },
        }
    }
}

/// Once a prefix has no composite, no longer prefix has one.
pub proof fn lemma_compose_prefix_none<V, E>(
    c: SpecFinCategory<V, E>,
    ms: Seq<FinMor<V, E>>,
    k: nat,
    n: nat,
)
    requires
        1 <= k <= n,
        c.compose_prefix(ms, k) is None,
    ensures
        c.compose_prefix(ms, n) is None,
    decreases n - k,
{
    if k < n {
        lemma_compose_prefix_none(c, ms, k + 1, n);
    }
}

/// A discrete double theory: a double theory without operations other than
/// identities, which is the same as a category.
///
/// Its object types are the objects of the category, its morphism types the
/// morphisms, and types compose as the morphisms do.
#[derive(Debug)]
pub struct DiscreteDblTheory<V, E> {
    category: FinCategory<V, E>,
}

/// A discrete double theory with keys of type `Ustr`.
pub type UstrDiscreteDblTheory = DiscreteDblTheory<ustr::Ustr, ustr::Ustr>;

impl<V, E> View for DiscreteDblTheory<V, E> {
    type V = SpecFinCategory<V, E>;

    closed spec fn view(&self) -> SpecFinCategory<V, E> {
        self.category@
    }
}

impl<V: Ident, E: Ident> DiscreteDblTheory<V, E> {
    /// The discrete double theory of a category.
    pub fn from(category: FinCategory<V, E>) -> (th: Self)
        requires
            category.wf(),
        ensures
            th.wf(),
            th@ == category@,
    {
        DiscreteDblTheory { category }
    }
}

impl<V: Ident, E: Ident> DblTheory for DiscreteDblTheory<V, E> {
    type ObType = V;

    type MorType = FinMor<V, E>;

    type ObOp = V;

    type MorOp = FinMor<V, E>;

    closed spec fn wf(&self) -> bool {
        self.category.wf()
    }

    open spec fn ob_type_known(&self, x: V) -> bool {
        self@.graph.has_vertex(x)
    }

    open spec fn mor_type_known(&self, m: FinMor<V, E>) -> bool {
        self@.has_mor(m)
    }

    open spec fn src_of(&self, m: FinMor<V, E>) -> V {
        self@.dom(m)
    }

    open spec fn tgt_of(&self, m: FinMor<V, E>) -> V {
        self@.cod(m)
    }

    open spec fn composite(&self, path: SpecPath<V, FinMor<V, E>>) -> Option<FinMor<V, E>> {
        self@.compose(path)
    }

    fn has_ob_type(&self, x: &V) -> (b: bool) {
        self.category.has_ob(x)
    }

    fn has_mor_type(&self, m: &FinMor<V, E>) -> (b: bool) {
        self.category.has_mor(m)
    }

    fn src(&self, m: &FinMor<V, E>) -> (x: V) {
        self.category.dom(m)
    }

    fn tgt(&self, m: &FinMor<V, E>) -> (x: V) {
        self.category.cod(m)
    }

    fn compose_types(&self, path: Path<V, FinMor<V, E>>) -> (m: FinMor<V, E>) {
        self.category.compose(path).unwrap()
    }
}

} // verus!
