//! Finitely presented categories: a graph of generators and equations between paths.

use vstd::prelude::*;
use crate::graph::{Graph, InvalidGraphData, SpecGraph};
use crate::ident::{same_option, Ident};
use crate::path::{flatten, nested_view, Path, PathEq, SpecPathEq};
use crate::zero::{concat_map, lemma_concat_map_step, Column};

verus! {

/// A failure of a path equation to be well defined in a graph.
#[derive(Debug, PartialEq, Eq)]
pub enum InvalidPathEq {
    /// The left hand side is not a path of the graph.
    Lhs,
    /// The right hand side is not a path of the graph.
    Rhs,
    /// Both sides are paths of the graph, with different sources.
    Src,
    /// Both sides are paths of the graph, with different targets.
    Tgt,
}

/// A failure of a finite presentation of a category to be well defined.
#[derive(Debug, PartialEq, Eq)]
pub enum InvalidFpCategory<E, K> {
    /// The domain of the morphism generator is missing or no object generator.
    Dom(E),
    /// The codomain of the morphism generator is missing or no object generator.
    Cod(E),
    /// The left hand side of the equation is not a well defined path.
    EqLhs(K),
    /// The right hand side of the equation is not a well defined path.
    EqRhs(K),
    /// The two sides of the equation have different sources.
    EqSrc(K),
    /// The two sides of the equation have different targets.
    EqTgt(K),
}

/// The single defect `e` if `cond` holds, else nothing.
pub open spec fn defect_if<T>(cond: bool, e: T) -> Seq<T> {
    if cond {
        seq![e]
    } else {
        Seq::empty()
    }
}

/// The defects of a path equation in a graph.
///
/// Each side is tested for being a path of the graph. Only where both are,
/// their sources and then their targets are compared.
pub open spec fn path_eq_invalid<V, E>(g: SpecGraph<V, E>, eq: SpecPathEq<V, E>) -> Seq<InvalidPathEq> {
    let l = g.contains_path(eq.lhs);
    let r = g.contains_path(eq.rhs);
    defect_if(!l, InvalidPathEq::Lhs) + defect_if(!r, InvalidPathEq::Rhs) + defect_if(
        l && r && g.path_src(eq.lhs) != g.path_src(eq.rhs),
        InvalidPathEq::Src,
    ) + defect_if(l && r && g.path_tgt(eq.lhs) != g.path_tgt(eq.rhs), InvalidPathEq::Tgt)
}

/// The defect of a presentation that a defect of its graph stands for.
pub open spec fn generator_error<E, K>(err: InvalidGraphData<E>) -> InvalidFpCategory<E, K> {
    match err {
        InvalidGraphData::Src(e) => InvalidFpCategory::Dom(e),
        InvalidGraphData::Tgt(e) => InvalidFpCategory::Cod(e),
    }
}

/// The defect of a presentation that a defect of its equation `key` stands for.
pub open spec fn equation_error<E, K>(key: K, err: InvalidPathEq) -> InvalidFpCategory<E, K> {
    match err {
        InvalidPathEq::Lhs => InvalidFpCategory::EqLhs(key),
        InvalidPathEq::Rhs => InvalidFpCategory::EqRhs(key),
        InvalidPathEq::Src => InvalidFpCategory::EqSrc(key),
        InvalidPathEq::Tgt => InvalidFpCategory::EqTgt(key),
    }
}

impl<V: Ident, E: Ident> PathEq<V, E> {
    /// Lists the defects of the equation in the graph.
    pub fn iter_invalid_in(&self, graph: &Graph<V, E>) -> (errs: Vec<InvalidPathEq>)
        requires
            graph.wf(),
        ensures
            errs@ == path_eq_invalid(graph@, self@),
    {
        let mut errs: Vec<InvalidPathEq> = Vec::new();
        let l = self.lhs.contained_in(graph);
        let r = self.rhs.contained_in(graph);
        if !l {
            errs.push(InvalidPathEq::Lhs);
        }
        if !r {
            errs.push(InvalidPathEq::Rhs);
        }
        if l && r {
            if !same_option(&self.lhs.src(graph), &self.rhs.src(graph)) {
                errs.push(InvalidPathEq::Src);
            }
            if !same_option(&self.lhs.tgt(graph), &self.rhs.tgt(graph)) {
                errs.push(InvalidPathEq::Tgt);
            }
        }
        assert(errs@ =~= path_eq_invalid(graph@, self@));
        errs
    }
}

/// A finitely presented category as a mathematical value.
#[verifier::reject_recursive_types(E)]
#[verifier::reject_recursive_types(K)]
pub struct SpecFpCategory<V, E, K> {
    /// The graph of object and morphism generators.
    pub graph: SpecGraph<V, E>,
    /// The keys of the equations, in the order of their insertion.
    pub eq_keys: Seq<K>,
    /// The equation of each key.
    pub equations: Map<K, SpecPathEq<V, E>>,
}

impl<V, E, K> SpecFpCategory<V, E, K> {
    /// The presentation without generators and equations.
    pub open spec fn empty() -> Self {
        SpecFpCategory { graph: SpecGraph::empty(), eq_keys: Seq::empty(), equations: Map::empty() }
    }

    /// Is the category freely generated: are there no equations?
    pub open spec fn is_free(self) -> bool {
        self.eq_keys.len() == 0
    }

    /// The presentation with the equation `eq` under `key`.
    pub open spec fn with_equation(self, key: K, eq: SpecPathEq<V, E>) -> Self {
        SpecFpCategory {
            eq_keys: if self.equations.contains_key(key) {
                self.eq_keys
            } else {
                self.eq_keys.push(key)
            },
            equations: self.equations.insert(key, eq),
            ..self
        }
    }

    /// Do both presentations have the same generators, with the same domains
    /// and codomains, and the same equations under the same keys, whatever
    /// the order of their insertion?
    pub open spec fn same_data(self, other: Self) -> bool {
        &&& self.graph.vertices.to_set() == other.graph.vertices.to_set()
        &&& self.graph.edges.to_set() == other.graph.edges.to_set()
        &&& self.graph.src == other.graph.src
        &&& self.graph.tgt == other.graph.tgt
        &&& self.equations == other.equations
    }

    /// For each key, the defects of the equation under it.
    pub open spec fn equation_errors(self) -> spec_fn(K) -> Seq<InvalidFpCategory<E, K>> {
        |key: K|
            path_eq_invalid(self.graph, self.equations[key]).map_values(
                |err: InvalidPathEq| equation_error::<E, K>(key, err),
            )
    }

    /// The defects of the presentation: those of its graph, then those of
    /// each equation, in the order of the equations.
    pub open spec fn invalid(self) -> Seq<InvalidFpCategory<E, K>> {
        self.graph.invalid().map_values(|err: InvalidGraphData<E>| generator_error::<E, K>(err))
            + concat_map(self.eq_keys, self.equation_errors())
    }
}

/// A finitely presented category: generators and equations between paths of generators.
#[derive(Debug)]
pub struct FpCategory<V, E, K> {
    generators: Graph<V, E>,
    equations: Column<K, PathEq<V, E>>,
}

impl<V, E, K> View for FpCategory<V, E, K> {
    type V = SpecFpCategory<V, E, K>;

    closed spec fn view(&self) -> SpecFpCategory<V, E, K> {
        SpecFpCategory {
            graph: self.generators@,
            eq_keys: self.equations.keys(),
            equations: self.equations@.map_values(|eq: PathEq<V, E>| eq@),
        }
    }
}

impl<V: Ident, E: Ident, K: Ident> FpCategory<V, E, K> {
    /// The stored graph and column of equations are well formed.
    pub closed spec fn wf(&self) -> bool {
        &&& self.generators.wf()
        &&& self.equations.wf()
    }

    /// In a well-formed presentation no generator and no equation key is
    /// enumerated twice, and the enumerated keys are those that have an equation.
    pub proof fn lemma_wf(&self)
        requires
            self.wf(),
        ensures
            self@.graph.vertices.no_duplicates(),
            self@.graph.edges.no_duplicates(),
            self@.eq_keys.no_duplicates(),
            forall|k: K| self@.eq_keys.contains(k) <==> #[trigger] self@.equations.contains_key(k),
    {
        self.generators.lemma_wf();
    }

    /// The presentation without generators and equations.
    pub fn new() -> (c: Self)
        ensures
            c.wf(),
            c@ == SpecFpCategory::<V, E, K>::empty(),
    {
        let c = FpCategory { generators: Graph::new(), equations: Column::new() };
        assert(c@.equations =~= Map::empty());
        c
    }

    /// The graph of generators.
    pub fn generators(&self) -> (g: &Graph<V, E>)
        requires
            self.wf(),
        ensures
            g.wf(),
            g@ == self@.graph,
    {
        &self.generators
    }

    /// Is the category freely generated?
    pub fn is_free(&self) -> (b: bool)
        ensures
            b == self@.is_free(),
    {
        self.equations.len() == 0
    }

    /// Adds an object generator, returning whether it is new.
    pub fn add_ob_generator(&mut self, v: V) -> (fresh: bool)
        requires
            old(self).wf(),
        ensures
            final(self).wf(),
            fresh == !old(self)@.graph.has_vertex(v),
            final(self)@ == (SpecFpCategory { graph: old(self)@.graph.with_vertex(v), ..old(self)@ }),
    {
        self.generators.add_vertex(v)
    }

    /// Adds a morphism generator with its domain and codomain, returning whether it is new.
    pub fn add_mor_generator(&mut self, e: E, dom: V, cod: V) -> (fresh: bool)
        requires
            old(self).wf(),
        ensures
            final(self).wf(),
            fresh == !old(self)@.graph.has_edge(e),
            final(self)@ == (SpecFpCategory {
                graph: SpecGraph {
                    src: old(self)@.graph.src.insert(e, dom),
                    tgt: old(self)@.graph.tgt.insert(e, cod),
                    ..old(self)@.graph.with_edge(e)
                },
                ..old(self)@
            }),
    {
        self.generators.add_edge(e, dom, cod)
    }

    /// Adds a morphism generator without domain and codomain, returning whether it is new.
    pub fn make_mor_generator(&mut self, e: E) -> (fresh: bool)
        requires
            old(self).wf(),
        ensures
            final(self).wf(),
            fresh == !old(self)@.graph.has_edge(e),
            final(self)@ == (SpecFpCategory { graph: old(self)@.graph.with_edge(e), ..old(self)@ }),
    {
        self.generators.make_edge(e)
    }

    /// The domain of a morphism generator, if it is set.
    pub fn get_dom(&self, e: &E) -> (r: Option<&V>)
        requires
            self.wf(),
        ensures
            match r {
                Some(v) => self@.graph.src.get(*e) == Some(*v),
                None => self@.graph.src.get(*e) is None,
            },
    {
        self.generators.get_src(e)
    }

    /// The codomain of a morphism generator, if it is set.
    pub fn get_cod(&self, e: &E) -> (r: Option<&V>)
        requires
            self.wf(),
        ensures
            match r {
                Some(v) => self@.graph.tgt.get(*e) == Some(*v),
                None => self@.graph.tgt.get(*e) is None,
            },
    {
        self.generators.get_tgt(e)
    }

    /// Sets the domain of a morphism generator, returning the one it had before, if any.
    pub fn set_dom(&mut self, e: E, v: V) -> (prev: Option<V>)
        requires
            old(self).wf(),
        ensures
            final(self).wf(),
            prev == old(self)@.graph.src.get(e),
            final(self)@ == (SpecFpCategory {
                graph: SpecGraph { src: old(self)@.graph.src.insert(e, v), ..old(self)@.graph },
                ..old(self)@
            }),
    {
        self.generators.set_src(e, v)
    }

    /// Sets the codomain of a morphism generator, returning the one it had before, if any.
    pub fn set_cod(&mut self, e: E, v: V) -> (prev: Option<V>)
        requires
            old(self).wf(),
        ensures
            final(self).wf(),
            prev == old(self)@.graph.tgt.get(e),
            final(self)@ == (SpecFpCategory {
                graph: SpecGraph { tgt: old(self)@.graph.tgt.insert(e, v), ..old(self)@.graph },
                ..old(self)@
            }),
    {
        self.generators.set_tgt(e, v)
    }

    /// Adds an equation under `key`, replacing the equation that was there, if any.
    pub fn add_equation(&mut self, key: K, eq: PathEq<V, E>)
        requires
            old(self).wf(),
        ensures
            final(self).wf(),
            final(self)@ == old(self)@.with_equation(key, eq@),
            !final(self)@.is_free(),
    {
        let ghost before = *self;
        self.equations.set(key, eq);
        assert(self@.equations =~= before@.equations.insert(key, eq@));
        proof {
            if before.equations@.contains_key(key) {
                let i = before.equations.keys().index_of(key);
                assert(0 <= i < before.equations.keys().len());
            }
        }
    }

    /// Is `x` an object generator?
    pub fn has_ob(&self, x: &V) -> (b: bool)
        requires
            self.wf(),
        ensures
            b == self@.graph.has_vertex(*x),
    {
        self.generators.has_vertex(x)
    }

    /// Is the path a morphism of the category: a path of its generators?
    pub fn has_mor(&self, path: &Path<V, E>) -> (b: bool)
        requires
            self.wf(),
        ensures
            b == self@.graph.contains_path(path@),
    {
        path.contained_in(&self.generators)
    }

    /// The domain of a morphism whose source is determined.
    pub fn dom(&self, path: &Path<V, E>) -> (x: V)
        requires
            self.wf(),
            self@.graph.path_src(path@) is Some,
        ensures
            Some(x) == self@.graph.path_src(path@),
    {
        path.src(&self.generators).unwrap()
    }

    /// The codomain of a morphism whose target is determined.
    pub fn cod(&self, path: &Path<V, E>) -> (x: V)
        requires
            self.wf(),
            self@.graph.path_tgt(path@) is Some,
        ensures
            Some(x) == self@.graph.path_tgt(path@),
    {
        path.tgt(&self.generators).unwrap()
    }

    /// The composite of a path of morphisms: its pieces joined end to end.
    pub fn compose(&self, path: Path<V, Path<V, E>>) -> (m: Path<V, E>)
        ensures
            m@ == flatten(nested_view(path)),
    {
        Path::flatten(&path)
    }

    /// The composite of two morphisms, the first ending where the second starts.
    pub fn compose2(&self, m: Path<V, E>, n: Path<V, E>) -> (r: Path<V, E>)
        requires
            self.wf(),
            self@.graph.concat(m@, n@) is Some,
        ensures
            Some(r@) == self@.graph.concat(m@, n@),
    {
        m.concat_in(&self.generators, n).unwrap()
    }

    /// The object generators, in the order of their insertion.
    pub fn object_generators(&self) -> (v: Vec<V>)
        ensures
            v@ == self@.graph.vertices,
    {
        self.generators.vertices()
    }

    /// The morphism generators, in the order of their insertion.
    pub fn morphism_generators(&self) -> (v: Vec<E>)
        ensures
            v@ == self@.graph.edges,
    {
        self.generators.edges()
    }

    /// Do both presentations have the same generators, with the same domains
    /// and codomains, and the same equations under the same keys, whatever
    /// the order of their insertion?
    pub fn same_presentation(&self, other: &Self) -> (b: bool)
        ensures
            self.wf() && other.wf() ==> b == self@.same_data(other@),
    {
        if !self.generators.same_data(&other.generators) {
            return false;
        }
        if !self.equations.aligned() || !other.equations.aligned() {
            return false;
        }
        proof {
            if self.wf() && other.wf() {
                self.equations.keys().unique_seq_to_set();
                other.equations.keys().unique_seq_to_set();
                assert(self@.equations.dom() =~= self@.eq_keys.to_set());
                assert(other@.equations.dom() =~= other@.eq_keys.to_set());
            }
        }
        if self.equations.len() != other.equations.len() {
            return false;
        }
        let n = self.equations.len();
        let mut i: usize = 0;
        while i < n
            invariant
                n == self.equations.keys().len(),
                n == self.equations.vals().len(),
                other.equations.keys().len() == n,
                other.equations.vals().len() == n,
                i <= n,
                self.wf() && other.wf() ==> forall|j: int|
                    0 <= j < i ==> other@.equations.contains_key(#[trigger] self@.eq_keys[j])
                        && other@.equations[self@.eq_keys[j]] == self@.equations[self@.eq_keys[j]],
            decreases n - i,
        {
            let key = self.equations.key_at(i);
            let eq = self.equations.val_at(i);
            proof {
                if self.wf() && other.wf() {
                    self.equations.lemma_entry(i as int);
                }
            }
            match other.equations.key_position(key) {
                Some(j) => {
                    let other_eq = other.equations.val_at(j);
                    proof {
                        if self.wf() && other.wf() {
                            other.equations.lemma_entry(j as int);
                        }
                    }
                    if !(eq.lhs.same(&other_eq.lhs) && eq.rhs.same(&other_eq.rhs)) {
                        assert(self.wf() && other.wf() ==> self@.equations[*key]
                            != other@.equations[*key]);
                        return false;
                    }
                },
                None => {
                    assert(self.wf() && other.wf() ==> self@.equations.contains_key(*key)
                        && !other@.equations.contains_key(*key));
                    return false;
                },
            }
            i += 1;
        }
        proof {
            if self.wf() && other.wf() {
                let a = self@.equations;
                let b = other@.equations;
                assert(a.dom().subset_of(b.dom())) by {
                    assert forall|x: K| a.dom().contains(x) implies b.dom().contains(x) by {
                        let j = choose|j: int| 0 <= j < self@.eq_keys.len() && self@.eq_keys[j] == x;
                        assert(b.contains_key(self@.eq_keys[j]));
                    }
                }
                vstd::set_lib::lemma_set_subset_finite(b.dom(), a.dom());
                vstd::set_lib::lemma_subset_equality(a.dom(), b.dom());
                assert(a =~= b) by {
                    assert forall|x: K| a.contains_key(x) implies #[trigger] a[x] == b[x] by {
                        let j = choose|j: int| 0 <= j < self@.eq_keys.len() && self@.eq_keys[j] == x;
                        assert(b[self@.eq_keys[j]] == a[self@.eq_keys[j]]);
                    }
                }
            }
        }
        true
    }

    /// Lists the defects of the presentation: those of the graph of
    /// generators, then those of the equations.
    pub fn iter_invalid(&self) -> (errs: Vec<InvalidFpCategory<E, K>>)
        requires
            self.wf(),
        ensures
            errs@ == self@.invalid(),
    {
        let mut errs: Vec<InvalidFpCategory<E, K>> = Vec::new();
        let graph_errs = self.generators.iter_invalid();
        let mut i: usize = 0;
        while i < graph_errs.len()
            invariant
                i <= graph_errs.len(),
                errs@ == graph_errs@.take(i as int).map_values(
                    |err: InvalidGraphData<E>| generator_error::<E, K>(err),
                ),
            decreases graph_errs.len() - i,
        {
            let converted = match &graph_errs[i] {
                InvalidGraphData::Src(e) => InvalidFpCategory::Dom(e.duplicate()),
                InvalidGraphData::Tgt(e) => InvalidFpCategory::Cod(e.duplicate()),
            };
            errs.push(converted);
            assert(graph_errs@.take(i + 1) == graph_errs@.take(i as int).push(graph_errs@[i as int]));
            assert(errs@ =~= graph_errs@.take(i + 1).map_values(
                |err: InvalidGraphData<E>| generator_error::<E, K>(err),
            ));
            i += 1;
        }
        assert(graph_errs@.take(graph_errs.len() as int) == graph_errs@);
        let ghost first = errs@;
        let n = self.equations.len();
        let mut i: usize = 0;
        while i < n
            invariant
                self.wf(),
                n == self@.eq_keys.len(),
                i <= n,
                errs@ == first + concat_map(self@.eq_keys.take(i as int), self@.equation_errors()),
            decreases n - i,
        {
            let key = self.equations.key_at(i);
            let eq = self.equations.val_at(i);
            proof {
                lemma_concat_map_step(self@.eq_keys, self@.equation_errors(), i as int);
                self.equations.lemma_entry(i as int);
                assert(self@.equations[*key] == eq@);
            }
            let eq_errs = eq.iter_invalid_in(&self.generators);
            let ghost before = errs@;
            let mut j: usize = 0;
            while j < eq_errs.len()
                invariant
                    j <= eq_errs.len(),
                    errs@ == before + eq_errs@.take(j as int).map_values(
                        |err: InvalidPathEq| equation_error::<E, K>(*key, err),
                    ),
                decreases eq_errs.len() - j,
            {
                let converted = match &eq_errs[j] {
                    InvalidPathEq::Lhs => InvalidFpCategory::EqLhs(key.duplicate()),
                    InvalidPathEq::Rhs => InvalidFpCategory::EqRhs(key.duplicate()),
                    InvalidPathEq::Src => InvalidFpCategory::EqSrc(key.duplicate()),
                    InvalidPathEq::Tgt => InvalidFpCategory::EqTgt(key.duplicate()),
                };
                errs.push(converted);
                assert(eq_errs@.take(j + 1) == eq_errs@.take(j as int).push(eq_errs@[j as int]));
                assert(errs@ =~= before + eq_errs@.take(j + 1).map_values(
                    |err: InvalidPathEq| equation_error::<E, K>(*key, err),
                ));
                j += 1;
            }
            assert(eq_errs@.take(eq_errs.len() as int) == eq_errs@);
            assert(errs@ =~= first + concat_map(self@.eq_keys.take(i + 1), self@.equation_errors()));
            i += 1;
        }
        assert(self@.eq_keys.take(n as int) == self@.eq_keys);
        errs
    }
}

} // verus!
