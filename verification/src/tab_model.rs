//! Models of discrete tabulator theories.

use std::sync::Arc;
use vstd::prelude::*;
use crate::ident::Ident;
use crate::model::{same_allocation, DblModel, FgDblModel};
use crate::path::{all_edges, flatten, lemma_all_edges_prefix, lemma_all_edges_step, Path, SpecPath};
use crate::tab_theory::{
    DiscreteTabTheory, SpecTabTheory, TabMorOp, TabMorType, TabObOp, TabObType,
};
use crate::theory::DblTheory;
use crate::zero::{Column, FinSet};

verus! {

/// Object in a model of a discrete tabulator theory.
#[derive(Debug, PartialEq, Eq)]
pub enum TabOb<V, E> {
    /// Basic or generating object.
    Basic(V),
    /// A morphism viewed as an object of a tabulator.
    Tabulated(Box<TabMor<V, E>>),
}

/// "Edge" in a model of a discrete tabulator theory.
///
/// Morphisms of these two forms generate all the morphisms in the model.
#[derive(Debug, PartialEq, Eq)]
pub enum TabEdge<V, E> {
    /// Basic morphism between any two objects.
    Basic(E),
    /// Generating morphism between tabulated morphisms, a commuting square.
    Square {
        /// The domain, a tabulated morphism.
        dom: Box<TabMor<V, E>>,
        /// The codomain, a tabulated morphism.
        cod: Box<TabMor<V, E>>,
        /// Edge that acts by pre-composition onto codomain.
        pre: Box<TabEdge<V, E>>,
        /// Edge that acts by post-composition onto domain.
        post: Box<TabEdge<V, E>>,
    },
}

/// Morphism in a model of a discrete tabulator theory.
pub type TabMor<V, E> = Path<TabOb<V, E>, TabEdge<V, E>>;

/// An object of a model of a discrete tabulator theory, as a mathematical value.
pub enum SpecTabOb<V, E> {
    /// Basic or generating object.
    Basic(V),
    /// A morphism viewed as an object of a tabulator.
    Tabulated(Box<SpecTabMor<V, E>>),
}

/// An edge of a model of a discrete tabulator theory, as a mathematical value.
pub enum SpecTabEdge<V, E> {
    /// Basic morphism between any two objects.
    Basic(E),
    /// Generating morphism between tabulated morphisms, a commuting square.
    Square {
        /// The domain, a tabulated morphism.
        dom: Box<SpecTabMor<V, E>>,
        /// The codomain, a tabulated morphism.
        cod: Box<SpecTabMor<V, E>>,
        /// Edge that acts by pre-composition onto codomain.
        pre: Box<SpecTabEdge<V, E>>,
        /// Edge that acts by post-composition onto domain.
        post: Box<SpecTabEdge<V, E>>,
    },
}

/// A morphism of a model of a discrete tabulator theory, as a mathematical value.
pub type SpecTabMor<V, E> = SpecPath<SpecTabOb<V, E>, SpecTabEdge<V, E>>;

/// The mathematical value of an object.
pub open spec fn ob_view<V, E>(ob: TabOb<V, E>) -> SpecTabOb<V, E>
    decreases ob,
{
    match ob {
        TabOb::Basic(v) => SpecTabOb::Basic(v),
        TabOb::Tabulated(p) => SpecTabOb::Tabulated(Box::new(mor_view(*p))),
    }
}

/// The mathematical value of an edge.
pub open spec fn edge_view<V, E>(edge: TabEdge<V, E>) -> SpecTabEdge<V, E>
    decreases edge,
{
    match edge {
        TabEdge::Basic(e) => SpecTabEdge::Basic(e),
        TabEdge::Square { dom, cod, pre, post } => SpecTabEdge::Square {
            dom: Box::new(mor_view(*dom)),
            cod: Box::new(mor_view(*cod)),
            pre: Box::new(edge_view(*pre)),
            post: Box::new(edge_view(*post)),
        },
    }
}

/// The mathematical values of the edges in a vector.
pub open spec fn edges_view<V, E>(edges: Vec<TabEdge<V, E>>) -> Seq<SpecTabEdge<V, E>>
    decreases edges,
{
    Seq::new(
        edges.len() as nat,
        |i: int|
            if 0 <= i < edges.len() {
                edge_view(edges[i])
            } else {
                arbitrary()
            },
    )
}

/// The mathematical value of a morphism.
pub open spec fn mor_view<V, E>(mor: TabMor<V, E>) -> SpecTabMor<V, E>
    decreases mor,
{
    match mor {
        Path::Id(x) => SpecPath::Id(ob_view(x)),
        Path::Edges { head, tail } => SpecPath::Edges(seq![edge_view(head)] + edges_view(tail)),
    }
}

impl<V, E> View for TabOb<V, E> {
    type V = SpecTabOb<V, E>;

    open spec fn view(&self) -> SpecTabOb<V, E> {
        ob_view(*self)
    }
}

impl<V, E> View for TabEdge<V, E> {
    type V = SpecTabEdge<V, E>;

    open spec fn view(&self) -> SpecTabEdge<V, E> {
        edge_view(*self)
    }
}

/// The morphism made of the edge `head` followed by the edges of `tail`.
pub open spec fn edges_path<V, E>(head: TabEdge<V, E>, tail: Vec<TabEdge<V, E>>) -> TabMor<V, E> {
    Path::Edges { head, tail }
}

/// The edge at position `i` of a path of at least one edge: its head, or
/// an edge of its tail.
pub open spec fn edge_at<V, E>(head: TabEdge<V, E>, tail: Vec<TabEdge<V, E>>, i: int) -> TabEdge<V, E> {
    if i == 0 {
        head
    } else {
        tail[i - 1]
    }
}

/// The view of a path of edges holds the views of its head and of the edges
/// of its tail, in order.
pub proof fn lemma_mor_view_edges<V, E>(head: TabEdge<V, E>, tail: Vec<TabEdge<V, E>>)
    ensures
        mor_view(edges_path(head, tail)) is Edges,
        mor_view(edges_path(head, tail)).edges().len() == tail.len() + 1,
        forall|i: int|
            0 <= i <= tail.len() ==> #[trigger] mor_view(edges_path(head, tail)).edges()[i]
                == edge_view(edge_at(head, tail, i)),
{
}

/// Duplicates an object.
pub fn duplicate_ob<V: Ident, E: Ident>(ob: &TabOb<V, E>) -> (r: TabOb<V, E>)
    ensures
        r@ == ob@,
    decreases ob,
{
    match ob {
        TabOb::Basic(v) => TabOb::Basic(v.duplicate()),
        TabOb::Tabulated(p) => TabOb::Tabulated(Box::new(duplicate_mor(p))),
    }
}

/// Duplicates an edge.
pub fn duplicate_edge<V: Ident, E: Ident>(edge: &TabEdge<V, E>) -> (r: TabEdge<V, E>)
    ensures
        r@ == edge@,
    decreases edge,
{
    match edge {
        TabEdge::Basic(e) => TabEdge::Basic(e.duplicate()),
        TabEdge::Square { dom, cod, pre, post } => TabEdge::Square {
            dom: Box::new(duplicate_mor(dom)),
            cod: Box::new(duplicate_mor(cod)),
            pre: Box::new(duplicate_edge(pre)),
            post: Box::new(duplicate_edge(post)),
        },
    }
}

/// Duplicates a morphism.
pub fn duplicate_mor<V: Ident, E: Ident>(mor: &TabMor<V, E>) -> (r: TabMor<V, E>)
    ensures
        mor_view(r) == mor_view(*mor),
    decreases mor,
{
    match mor {
        Path::Id(x) => Path::Id(duplicate_ob(x)),
        Path::Edges { head, tail } => {
            let first = duplicate_edge(head);
            let mut rest: Vec<TabEdge<V, E>> = Vec::new();
            let mut i: usize = 0;
            while i < tail.len()
                invariant
                    decreases_to!(*mor => *tail),
                    i <= tail.len(),
                    rest.len() == i,
                    forall|j: int| 0 <= j < i ==> (#[trigger] rest[j])@ == tail[j]@,
                decreases tail.len() - i,
            {
                rest.push(duplicate_edge(&tail[i]));
                i += 1;
            }
            assert(edges_view(rest) =~= edges_view(*tail));
            Path::Edges { head: first, tail: rest }
        },
    }
}

/// Compares two objects.
pub fn same_ob<V: Ident, E: Ident>(a: &TabOb<V, E>, b: &TabOb<V, E>) -> (r: bool)
    ensures
        r == (a@ == b@),
    decreases a,
{
    match (a, b) {
        (TabOb::Basic(v), TabOb::Basic(w)) => v.same(w),
        (TabOb::Tabulated(p), TabOb::Tabulated(q)) => same_mor(p, q),
        _ => false,
    }
}

/// Compares two edges.
pub fn same_edge<V: Ident, E: Ident>(a: &TabEdge<V, E>, b: &TabEdge<V, E>) -> (r: bool)
    ensures
        r == (a@ == b@),
    decreases a,
{
    match (a, b) {
        (TabEdge::Basic(e), TabEdge::Basic(f)) => e.same(f),
        (
            TabEdge::Square { dom: d1, cod: c1, pre: p1, post: q1 },
            TabEdge::Square { dom: d2, cod: c2, pre: p2, post: q2 },
        ) => same_mor(d1, d2) && same_mor(c1, c2) && same_edge(p1, p2) && same_edge(q1, q2),
        _ => false,
    }
}

/// Compares two morphisms: the same object, or the same edges in the same order.
pub fn same_mor<V: Ident, E: Ident>(a: &TabMor<V, E>, b: &TabMor<V, E>) -> (r: bool)
    ensures
        r == (mor_view(*a) == mor_view(*b)),
    decreases a,
{
    match (a, b) {
        (Path::Id(x), Path::Id(y)) => same_ob(x, y),
        (Path::Edges { head: h1, tail: t1 }, Path::Edges { head: h2, tail: t2 }) => {
            proof {
                lemma_mor_view_edges(*h1, *t1);
                lemma_mor_view_edges(*h2, *t2);
            }
            let ghost es1 = mor_view(*a).edges();
            let ghost es2 = mor_view(*b).edges();
            if t1.len() != t2.len() {
                return false;
            }
            if !same_edge(h1, h2) {
                assert(es1[0] != es2[0]);
                return false;
            }
            let mut i: usize = 0;
            while i < t1.len()
                invariant
                    decreases_to!(*a => *t1),
                    *a == edges_path(*h1, *t1),
                    *b == edges_path(*h2, *t2),
                    es1 == mor_view(*a).edges(),
                    es2 == mor_view(*b).edges(),
                    t1.len() == t2.len(),
                    i <= t1.len(),
                    forall|j: int| 0 <= j <= i ==> es1[j] == es2[j],
                decreases t1.len() - i,
            {
                proof {
                    lemma_mor_view_edges(*h1, *t1);
                    lemma_mor_view_edges(*h2, *t2);
                    assert(es1[i + 1] == edge_view(edge_at(*h1, *t1, i + 1)));
                    assert(es2[i + 1] == edge_view(edge_at(*h2, *t2, i + 1)));
                }
                if !same_edge(&t1[i], &t2[i]) {
                    assert(es1[i + 1] != es2[i + 1]);
                    return false;
                }
                i += 1;
            }
            assert(es1 =~= es2);
            true
        },
        _ => false,
    }
}

impl<V, E> From<V> for TabOb<V, E> {
    fn from(value: V) -> (ob: Self) {
        TabOb::Basic(value)
    }
}

impl<V, E> vstd::std_specs::convert::FromSpecImpl<V> for TabOb<V, E> {
    open spec fn obeys_from_spec() -> bool {
        true
    }

    open spec fn from_spec(value: V) -> Self {
        TabOb::Basic(value)
    }
}

impl<V, E> From<E> for TabEdge<V, E> {
    fn from(value: E) -> (edge: Self) {
        TabEdge::Basic(value)
    }
}

impl<V, E> vstd::std_specs::convert::FromSpecImpl<E> for TabEdge<V, E> {
    open spec fn obeys_from_spec() -> bool {
        true
    }

    open spec fn from_spec(value: E) -> Self {
        TabEdge::Basic(value)
    }
}

impl<V, E> From<E> for TabMor<V, E> {
    fn from(value: E) -> (mor: Self)
        ensures
            mor_view(mor) == SpecTabMor::<V, E>::single(SpecTabEdge::Basic(value)),
    {
        let mor = Path::single(TabEdge::Basic(value));
        proof {
            lemma_single_view(mor, TabEdge::Basic(value));
        }
        mor
    }
}

impl<V, E> vstd::std_specs::convert::FromSpecImpl<E> for TabMor<V, E> {
    /// The morphism holds a vector, whose identity contracts cannot state:
    /// what `from` returns is told by its own contract, over the view.
    open spec fn obeys_from_spec() -> bool {
        false
    }

    open spec fn from_spec(value: E) -> Self {
        arbitrary()
    }
}

/// The view of the path of a single edge is the path of the view of that edge.
pub proof fn lemma_single_view<V, E>(mor: TabMor<V, E>, edge: TabEdge<V, E>)
    requires
        mor@ == SpecPath::<TabOb<V, E>, TabEdge<V, E>>::single(edge),
    ensures
        mor_view(mor) == SpecTabMor::<V, E>::single(edge@),
{
    match mor {
        Path::Id(_) => {},
        Path::Edges { head, tail } => {
            let es = seq![head] + tail@;
            assert(es == seq![edge]);
            assert(es.len() == 1);
            assert(es[0] == edge);
            assert(tail@.len() == 0);
            assert(mor_view(mor).edges() =~= seq![edge@]);
        },
    }
}

/// The generators of a model of a discrete tabulator theory, as a
/// mathematical value: a graph whose vertices and edges are built from basic
/// objects and basic morphisms.
#[verifier::reject_recursive_types(V)]
#[verifier::reject_recursive_types(E)]
pub struct SpecTabGens<V, E> {
    /// The basic objects, in the order of their insertion.
    pub objects: Seq<V>,
    /// The basic morphisms, in the order of their insertion.
    pub morphisms: Seq<E>,
    /// The domain of each basic morphism.
    pub dom: Map<E, SpecTabOb<V, E>>,
    /// The codomain of each basic morphism.
    pub cod: Map<E, SpecTabOb<V, E>>,
}

impl<V, E> SpecTabGens<V, E> {
    /// No generators at all.
    pub open spec fn empty() -> Self {
        SpecTabGens { objects: Seq::empty(), morphisms: Seq::empty(), dom: Map::empty(), cod: Map::empty() }
    }

    /// Do both hold the same basic objects and morphisms, with the same
    /// domains and codomains, whatever the order of their insertion?
    pub open spec fn same_data(self, other: Self) -> bool {
        &&& self.objects.to_set() == other.objects.to_set()
        &&& self.morphisms.to_set() == other.morphisms.to_set()
        &&& self.dom == other.dom
        &&& self.cod == other.cod
    }

    /// The source of an edge, if it is determined: the registered domain of
    /// a basic morphism, or the domain of a square viewed as an object.
    pub open spec fn src(self, edge: SpecTabEdge<V, E>) -> Option<SpecTabOb<V, E>> {
        match edge {
            SpecTabEdge::Basic(e) => self.dom.get(e),
            SpecTabEdge::Square { dom, .. } => Some(SpecTabOb::Tabulated(dom)),
        }
    }

    /// The target of an edge, if it is determined: the registered codomain of
    /// a basic morphism, or the codomain of a square viewed as an object.
    pub open spec fn tgt(self, edge: SpecTabEdge<V, E>) -> Option<SpecTabOb<V, E>> {
        match edge {
            SpecTabEdge::Basic(e) => self.cod.get(e),
            SpecTabEdge::Square { cod, .. } => Some(SpecTabOb::Tabulated(cod)),
        }
    }

    /// Does the edge `e` end at a determined object, at which the edge `f` starts?
    pub open spec fn joined(self, e: SpecTabEdge<V, E>, f: SpecTabEdge<V, E>) -> bool {
        self.tgt(e) is Some && self.tgt(e) == self.src(f)
    }

    /// Does each of the edges `es` end where the next one starts?
    pub open spec fn chained(self, es: Seq<SpecTabEdge<V, E>>) -> bool {
        forall|i: int| 0 <= i < es.len() - 1 ==> self.joined(#[trigger] es[i], es[i + 1])
    }

    /// The object at which the morphism starts, if it is determined.
    pub open spec fn mor_src(self, mor: SpecTabMor<V, E>) -> Option<SpecTabOb<V, E>> {
        match mor {
            SpecPath::Id(x) => Some(x),
            SpecPath::Edges(es) => self.src(es.first()),
        }
    }

    /// The object at which the morphism ends, if it is determined.
    pub open spec fn mor_tgt(self, mor: SpecTabMor<V, E>) -> Option<SpecTabOb<V, E>> {
        match mor {
            SpecPath::Id(x) => Some(x),
            SpecPath::Edges(es) => self.tgt(es.last()),
        }
    }

    /// The morphism `p` followed by the morphism `q`, flattened to one path,
    /// if `p` ends where `q` starts.
    pub open spec fn concat(self, p: SpecTabMor<V, E>, q: SpecTabMor<V, E>) -> Option<SpecTabMor<V, E>> {
        if q is Id && self.mor_tgt(p) == Some(q->Id_0) {
            Some(p)
        } else if p is Id && self.mor_src(q) == Some(p->Id_0) {
            Some(q)
        } else if p is Edges && q is Edges && self.joined(p.edges().last(), q.edges().first()) {
            Some(SpecPath::Edges(p.edges() + q.edges()))
        } else {
            None
        }
    }

    /// Do the two decompositions of a square agree: are the domain followed
    /// by `post` and `pre` followed by the codomain both defined, and equal
    /// as paths?
    pub open spec fn square_commutes(
        self,
        dom: SpecTabMor<V, E>,
        cod: SpecTabMor<V, E>,
        pre: SpecTabEdge<V, E>,
        post: SpecTabEdge<V, E>,
    ) -> bool {
        let first = self.concat(dom, SpecPath::single(post));
        let second = self.concat(SpecPath::single(pre), cod);
        first is Some && second is Some && first == second
    }

    /// Does the object exist: is it a registered basic object, or the
    /// tabulated form of a morphism that exists?
    pub open spec fn has_vertex(self, ob: SpecTabOb<V, E>) -> bool
        decreases ob,
    {
        match ob {
            SpecTabOb::Basic(v) => self.objects.contains(v),
            SpecTabOb::Tabulated(p) => self.contains_mor(*p),
        }
    }

    /// Does the edge exist: is it a registered basic morphism, or a square
    /// whose domain and codomain exist and whose two decompositions agree?
    pub open spec fn has_edge(self, edge: SpecTabEdge<V, E>) -> bool
        decreases edge,
    {
        match edge {
            SpecTabEdge::Basic(e) => self.morphisms.contains(e),
            SpecTabEdge::Square { dom, cod, pre, post } => {
                &&& self.contains_mor(*dom)
                &&& self.contains_mor(*cod)
                &&& self.square_commutes(*dom, *cod, *pre, *post)
            },
        }
    }

    /// Do all of the edges `es` exist?
    pub open spec fn edges_exist(self, es: Seq<SpecTabEdge<V, E>>) -> bool
        decreases es,
    {
        forall|i: int| 0 <= i < es.len() ==> self.has_edge(#[trigger] es[i])
    }

    /// Does the morphism exist: is it the empty path at an object that exists,
    /// or a path of edges that exist, each ending where the next one starts?
    pub open spec fn contains_mor(self, mor: SpecTabMor<V, E>) -> bool
        decreases mor,
    {
        match mor {
            SpecPath::Id(x) => self.has_vertex(x),
            SpecPath::Edges(es) => self.edges_exist(es) && self.chained(es),
        }
    }

    /// Does each of the morphisms `ps` end at a determined object, at which the next one starts?
    pub open spec fn linked(self, ps: Seq<SpecTabMor<V, E>>) -> bool {
        forall|i: int|
            0 <= i < ps.len() - 1 ==> self.mor_tgt(#[trigger] ps[i]) is Some && self.mor_tgt(ps[i])
                == self.mor_src(ps[i + 1])
    }

    /// Can the path of morphisms be composed: does each piece end where the next one starts?
    pub open spec fn composable(self, path: SpecPath<SpecTabOb<V, E>, SpecTabMor<V, E>>) -> bool {
        match path {
            SpecPath::Id(_) => true,
            SpecPath::Edges(ps) => self.linked(ps),
        }
    }

    /// The pieces of the path of morphisms joined end to end, if the path can be composed.
    pub open spec fn flatten_in(self, path: SpecPath<SpecTabOb<V, E>, SpecTabMor<V, E>>) -> Option<
        SpecTabMor<V, E>,
    > {
        if self.composable(path) {
            Some(crate::path::flatten(path))
        } else {
            None
        }
    }
}

/// A square exists exactly if its domain and its codomain exist and its two
/// decompositions, the domain followed by `post` and `pre` followed by the
/// codomain, are both defined and equal as paths. Where the decompositions
/// are undefined or differ, the square does not exist.
pub proof fn lemma_square_exists<V, E>(
    gens: SpecTabGens<V, E>,
    dom: SpecTabMor<V, E>,
    cod: SpecTabMor<V, E>,
    pre: SpecTabEdge<V, E>,
    post: SpecTabEdge<V, E>,
)
    ensures
        gens.has_edge(
            SpecTabEdge::Square {
                dom: Box::new(dom),
                cod: Box::new(cod),
                pre: Box::new(pre),
                post: Box::new(post),
            },
        ) <==> gens.contains_mor(dom) && gens.contains_mor(cod) && gens.square_commutes(
            dom,
            cod,
            pre,
            post,
        ),
        gens.contains_mor(dom) && gens.contains_mor(cod) ==> (gens.has_edge(
            SpecTabEdge::Square {
                dom: Box::new(dom),
                cod: Box::new(cod),
                pre: Box::new(pre),
                post: Box::new(post),
            },
        ) <==> {
            &&& gens.concat(dom, SpecPath::single(post)) is Some
            &&& gens.concat(SpecPath::single(pre), cod) is Some
            &&& gens.concat(dom, SpecPath::single(post)) == gens.concat(SpecPath::single(pre), cod)
        }),
{
}

/// The path of a single edge exists exactly if the edge does.
pub proof fn lemma_single_exists<V, E>(gens: SpecTabGens<V, E>, edge: SpecTabEdge<V, E>)
    ensures
        gens.contains_mor(SpecPath::single(edge)) <==> gens.has_edge(edge),
{
    let es = seq![edge];
    assert(es[0] == edge);
    assert(gens.chained(es));
    if gens.has_edge(edge) {
        assert forall|i: int| 0 <= i < es.len() implies gens.has_edge(#[trigger] es[i]) by {
            assert(es[i] == edge);
        }
    }
}

/// The generators of a model of a discrete tabulator theory: basic objects,
/// and basic morphisms with their domains and codomains.
#[derive(Debug)]
pub struct DiscreteTabGenerators<V, E> {
    objects: FinSet<V>,
    morphisms: FinSet<E>,
    dom: Column<E, TabOb<V, E>>,
    cod: Column<E, TabOb<V, E>>,
}

impl<V, E> View for DiscreteTabGenerators<V, E> {
    type V = SpecTabGens<V, E>;

    closed spec fn view(&self) -> SpecTabGens<V, E> {
        SpecTabGens {
            objects: self.objects@,
            morphisms: self.morphisms@,
            dom: ends_view(self.dom),
            cod: ends_view(self.cod),
        }
    }
}

/// The mathematical value of a column of objects: each key with the value of its object.
pub open spec fn ends_view<V, E>(ends: Column<E, TabOb<V, E>>) -> Map<E, SpecTabOb<V, E>> {
    ends@.map_values(|ob: TabOb<V, E>| ob@)
}

/// Do both columns give the same objects to the same keys, whatever the
/// order of their insertion?
fn same_ends<V: Ident, E: Ident>(a: &Column<E, TabOb<V, E>>, b: &Column<E, TabOb<V, E>>) -> (r: bool)
    ensures
        a.wf() && b.wf() ==> r == (ends_view(*a) == ends_view(*b)),
{
    if !a.aligned() || !b.aligned() {
        return false;
    }
    proof {
        if a.wf() && b.wf() {
            a.keys().unique_seq_to_set();
            b.keys().unique_seq_to_set();
            assert(ends_view(*a).dom() =~= a.keys().to_set());
            assert(ends_view(*b).dom() =~= b.keys().to_set());
        }
    }
    if a.len() != b.len() {
        return false;
    }
    let n = a.len();
    let mut i: usize = 0;
    while i < n
        invariant
            n == a.keys().len(),
            n == a.vals().len(),
            n == b.keys().len(),
            n == b.vals().len(),
            i <= n,
            a.wf() && b.wf() ==> forall|j: int|
                0 <= j < i ==> ends_view(*b).contains_key(#[trigger] a.keys()[j]) && ends_view(*b)[a.keys()[j]]
                    == ends_view(*a)[a.keys()[j]],
        decreases n - i,
    {
        let key = a.key_at(i);
        let ob = a.val_at(i);
        proof {
            if a.wf() && b.wf() {
                a.lemma_entry(i as int);
            }
        }
        match b.key_position(key) {
            Some(j) => {
                let other_ob = b.val_at(j);
                proof {
                    if a.wf() && b.wf() {
                        b.lemma_entry(j as int);
                    }
                }
                if !same_ob(ob, other_ob) {
                    assert(a.wf() && b.wf() ==> ends_view(*a)[*key] != ends_view(*b)[*key]);
                    return false;
                }
            },
            None => {
                assert(a.wf() && b.wf() ==> ends_view(*a).contains_key(*key) && !ends_view(
                    *b,
                ).contains_key(*key));
                return false;
            },
        }
        i += 1;
    }
    proof {
        if a.wf() && b.wf() {
            let x = ends_view(*a);
            let y = ends_view(*b);
            assert(x.dom().subset_of(y.dom())) by {
                assert forall|k: E| x.dom().contains(k) implies y.dom().contains(k) by {
                    let j = choose|j: int| 0 <= j < a.keys().len() && a.keys()[j] == k;
                    assert(y.contains_key(a.keys()[j]));
                }
            }
            vstd::set_lib::lemma_set_subset_finite(y.dom(), x.dom());
            vstd::set_lib::lemma_subset_equality(x.dom(), y.dom());
            assert(x =~= y) by {
                assert forall|k: E| x.contains_key(k) implies #[trigger] x[k] == y[k] by {
                    let j = choose|j: int| 0 <= j < a.keys().len() && a.keys()[j] == k;
                    assert(y[a.keys()[j]] == x[a.keys()[j]]);
                }
            }
        }
    }
    true
}

impl<V: Ident, E: Ident> DiscreteTabGenerators<V, E> {
    /// The stored sets and columns are well formed, and the basic morphisms
    /// are exactly the identifiers with a domain, and with a codomain.
    pub closed spec fn wf(&self) -> bool {
        &&& self.objects.wf()
        &&& self.morphisms.wf()
        &&& self.dom.wf()
        &&& self.cod.wf()
        &&& self.dom.keys() == self.morphisms@
        &&& self.cod.keys() == self.morphisms@
    }

    /// In well-formed generators no generator is enumerated twice, and the
    /// basic morphisms are exactly the identifiers with a domain, and with a
    /// codomain.
    pub proof fn lemma_wf(&self)
        requires
            self.wf(),
        ensures
            self@.objects.no_duplicates(),
            self@.morphisms.no_duplicates(),
            forall|e: E| self@.morphisms.contains(e) <==> #[trigger] self@.dom.contains_key(e),
            forall|e: E| self@.morphisms.contains(e) <==> #[trigger] self@.cod.contains_key(e),
    {
    }

    /// No generators at all.
    pub fn new() -> (gens: Self)
        ensures
            gens.wf(),
            gens@ == SpecTabGens::<V, E>::empty(),
    {
        let gens = DiscreteTabGenerators {
            objects: FinSet::new(),
            morphisms: FinSet::new(),
            dom: Column::new(),
            cod: Column::new(),
        };
        assert(gens@.dom =~= Map::empty());
        assert(gens@.cod =~= Map::empty());
        gens
    }

    /// Do both hold the same basic objects and morphisms, with the same
    /// domains and codomains, whatever the order of their insertion?
    pub fn same_data(&self, other: &Self) -> (b: bool)
        ensures
            self.wf() && other.wf() ==> b == self@.same_data(other@),
    {
        self.objects.same_elements(&other.objects) && self.morphisms.same_elements(&other.morphisms)
            && same_ends(&self.dom, &other.dom) && same_ends(&self.cod, &other.cod)
    }

    /// Adds a basic object, returning whether it is new.
    pub fn add_object(&mut self, x: V) -> (fresh: bool)
        requires
            old(self).wf(),
        ensures
            final(self).wf(),
            fresh == !old(self)@.objects.contains(x),
            final(self)@ == (SpecTabGens {
                objects: if fresh {
                    old(self)@.objects.push(x)
                } else {
                    old(self)@.objects
                },
                ..old(self)@
            }),
    {
        self.objects.insert(x)
    }

    /// Adds a basic morphism with its domain and codomain, returning whether
    /// it is new. A morphism that was there gets the new domain and codomain.
    pub fn add_morphism(&mut self, f: E, dom: TabOb<V, E>, cod: TabOb<V, E>) -> (fresh: bool)
        requires
            old(self).wf(),
        ensures
            final(self).wf(),
            fresh == !old(self)@.morphisms.contains(f),
            final(self)@ == (SpecTabGens {
                morphisms: if fresh {
                    old(self)@.morphisms.push(f)
                } else {
                    old(self)@.morphisms
                },
                dom: old(self)@.dom.insert(f, dom@),
                cod: old(self)@.cod.insert(f, cod@),
                ..old(self)@
            }),
    {
        let ghost before = *self;
        self.dom.set(f.duplicate(), dom);
        self.cod.set(f.duplicate(), cod);
        let fresh = self.morphisms.insert(f);
        assert(self@.dom =~= before@.dom.insert(f, dom@));
        assert(self@.cod =~= before@.cod.insert(f, cod@));
        fresh
    }

    /// The basic objects, in the order of their insertion.
    pub fn objects(&self) -> (v: Vec<V>)
        ensures
            v@ == self@.objects,
    {
        self.objects.to_vec()
    }

    /// The basic morphisms, in the order of their insertion.
    pub fn morphisms(&self) -> (v: Vec<E>)
        ensures
            v@ == self@.morphisms,
    {
        self.morphisms.to_vec()
    }

    /// The source of an edge, if it is determined.
    pub fn get_src(&self, edge: &TabEdge<V, E>) -> (r: Option<TabOb<V, E>>)
        requires
            self.wf(),
        ensures
            match r {
                Some(ob) => self@.src(edge@) == Some(ob@),
                None => self@.src(edge@) is None,
            },
    {
        match edge {
            TabEdge::Basic(e) => match self.dom.get(e) {
                Some(ob) => Some(duplicate_ob(ob)),
                None => None,
            },
            TabEdge::Square { dom, .. } => Some(TabOb::Tabulated(Box::new(duplicate_mor(dom)))),
        }
    }

    /// The target of an edge, if it is determined.
    pub fn get_tgt(&self, edge: &TabEdge<V, E>) -> (r: Option<TabOb<V, E>>)
        requires
            self.wf(),
        ensures
            match r {
                Some(ob) => self@.tgt(edge@) == Some(ob@),
                None => self@.tgt(edge@) is None,
            },
    {
        match edge {
            TabEdge::Basic(e) => match self.cod.get(e) {
                Some(ob) => Some(duplicate_ob(ob)),
                None => None,
            },
            TabEdge::Square { cod, .. } => Some(TabOb::Tabulated(Box::new(duplicate_mor(cod)))),
        }
    }

    /// The source of an edge whose source is determined.
    pub fn src(&self, edge: &TabEdge<V, E>) -> (ob: TabOb<V, E>)
        requires
            self.wf(),
            self@.src(edge@) is Some,
        ensures
            self@.src(edge@) == Some(ob@),
    {
        self.get_src(edge).unwrap()
    }

    /// The target of an edge whose target is determined.
    pub fn tgt(&self, edge: &TabEdge<V, E>) -> (ob: TabOb<V, E>)
        requires
            self.wf(),
            self@.tgt(edge@) is Some,
        ensures
            self@.tgt(edge@) == Some(ob@),
    {
        self.get_tgt(edge).unwrap()
    }

    /// Does the edge `e` end at a determined object, at which the edge `f` starts?
    pub fn joined(&self, e: &TabEdge<V, E>, f: &TabEdge<V, E>) -> (b: bool)
        requires
            self.wf(),
        ensures
            b == self@.joined(e@, f@),
    {
        match (self.get_tgt(e), self.get_src(f)) {
            (Some(t), Some(s)) => same_ob(&t, &s),
            _ => false,
        }
    }

    /// The object at which the morphism starts, if it is determined.
    pub fn mor_src(&self, mor: &TabMor<V, E>) -> (r: Option<TabOb<V, E>>)
        requires
            self.wf(),
        ensures
            match r {
                Some(ob) => self@.mor_src(mor_view(*mor)) == Some(ob@),
                None => self@.mor_src(mor_view(*mor)) is None,
            },
    {
        match mor {
            Path::Id(x) => Some(duplicate_ob(x)),
            Path::Edges { head, tail } => {
                proof {
                    lemma_mor_view_edges(*head, *tail);
                }
                self.get_src(head)
            },
        }
    }

    /// The object at which the morphism ends, if it is determined.
    pub fn mor_tgt(&self, mor: &TabMor<V, E>) -> (r: Option<TabOb<V, E>>)
        requires
            self.wf(),
        ensures
            match r {
                Some(ob) => self@.mor_tgt(mor_view(*mor)) == Some(ob@),
                None => self@.mor_tgt(mor_view(*mor)) is None,
            },
    {
        match mor {
            Path::Id(x) => Some(duplicate_ob(x)),
            Path::Edges { head, tail } => {
                proof {
                    lemma_mor_view_edges(*head, *tail);
                }
                if tail.len() == 0 {
                    self.get_tgt(head)
                } else {
                    assert(edge_at(*head, *tail, tail.len() as int) == tail[tail.len() - 1]);
                    self.get_tgt(&tail[tail.len() - 1])
                }
            },
        }
    }

    /// Do the objects `a` and `b`, as far as they are determined, agree, and
    /// is `a` determined?
    fn meet(a: &Option<TabOb<V, E>>, b: &Option<TabOb<V, E>>) -> (r: bool)
        ensures
            r == match (*a, *b) {
                (Some(x), Some(y)) => x@ == y@,
                _ => false,
            },
    {
        match (a, b) {
            (Some(x), Some(y)) => same_ob(x, y),
            _ => false,
        }
    }

    /// The morphism `p` followed by the morphism `q`, flattened to one path,
    /// if `p` ends where `q` starts.
    pub fn concat(&self, p: TabMor<V, E>, q: TabMor<V, E>) -> (r: Option<TabMor<V, E>>)
        requires
            self.wf(),
        ensures
            match r {
                Some(m) => self@.concat(mor_view(p), mor_view(q)) == Some(mor_view(m)),
                None => self@.concat(mor_view(p), mor_view(q)) is None,
            },
    {
        let end = self.mor_tgt(&p);
        let start = self.mor_src(&q);
        match (p, q) {
            (Path::Id(x), Path::Id(y)) => {
                if same_ob(&x, &y) {
                    Some(Path::Id(x))
                } else {
                    None
                }
            },
            (Path::Edges { head, tail }, Path::Id(y)) => {
                if Self::meet(&end, &Some(y)) {
                    Some(Path::Edges { head, tail })
                } else {
                    None
                }
            },
            (Path::Id(x), Path::Edges { head, tail }) => {
                if Self::meet(&start, &Some(x)) {
                    Some(Path::Edges { head, tail })
                } else {
                    None
                }
            },
            (Path::Edges { head: h1, tail: t1 }, Path::Edges { head: h2, tail: t2 }) => {
                proof {
                    lemma_mor_view_edges(h1, t1);
                    lemma_mor_view_edges(h2, t2);
                }
                let ghost a = mor_view(edges_path(h1, t1)).edges();
                let ghost b = mor_view(edges_path(h2, t2)).edges();
                if Self::meet(&end, &start) {
                    let ghost n1 = t1.len();
                    let ghost n2 = t2.len();
                    let ghost t1_before = t1;
                    let ghost t2_before = t2;
                    let mut tail = t1;
                    let mut rest = t2;
                    tail.push(h2);
                    tail.append(&mut rest);
                    proof {
                        lemma_mor_view_edges(h1, tail);
                        let joined = mor_view(edges_path(h1, tail)).edges();
                        assert(joined.len() == a.len() + b.len());
                        assert forall|i: int| 0 <= i < joined.len() implies joined[i] == (a + b)[i] by {
                            if i < a.len() {
                                assert(edge_at(h1, tail, i) == edge_at(h1, t1_before, i));
                            } else {
                                assert(edge_at(h1, tail, i) == edge_at(h2, t2_before, i - a.len()));
                            }
                        }
                        assert(joined =~= a + b);
                    }
                    Some(Path::Edges { head: h1, tail })
                } else {
                    None
                }
            },
        }
    }

    /// Does the object exist?
    pub fn has_vertex(&self, ob: &TabOb<V, E>) -> (b: bool)
        requires
            self.wf(),
        ensures
            b == self@.has_vertex(ob@),
        decreases ob,
    {
        match ob {
            TabOb::Basic(v) => self.objects.contains(v),
            TabOb::Tabulated(p) => self.contains_mor(p),
        }
    }

    /// Does the edge exist?
    pub fn has_edge(&self, edge: &TabEdge<V, E>) -> (b: bool)
        requires
            self.wf(),
        ensures
            b == self@.has_edge(edge@),
        decreases edge,
    {
        match edge {
            TabEdge::Basic(e) => self.morphisms.contains(e),
            TabEdge::Square { dom, cod, pre, post } => {
                if !(self.contains_mor(dom) && self.contains_mor(cod)) {
                    return false;
                }
                let post_path = Path::single(duplicate_edge(post));
                let pre_path = Path::single(duplicate_edge(pre));
                proof {
                    lemma_single_view(post_path, post_path@.edges()[0]);
                    lemma_single_view(pre_path, pre_path@.edges()[0]);
                }
                let path1 = self.concat(duplicate_mor(dom), post_path);
                let path2 = self.concat(pre_path, duplicate_mor(cod));
                match (path1, path2) {
                    (Some(first), Some(second)) => same_mor(&first, &second),
                    _ => false,
                }
            },
        }
    }

    /// Does the morphism exist?
    pub fn contains_mor(&self, mor: &TabMor<V, E>) -> (b: bool)
        requires
            self.wf(),
        ensures
            b == self@.contains_mor(mor_view(*mor)),
        decreases mor,
    {
        match mor {
            Path::Id(x) => self.has_vertex(x),
            Path::Edges { head, tail } => {
                proof {
                    lemma_mor_view_edges(*head, *tail);
                }
                let ghost es = mor_view(*mor).edges();
                if !self.has_edge(head) {
                    assert(!self@.has_edge(es[0]));
                    return false;
                }
                let mut prev: &TabEdge<V, E> = head;
                let mut i: usize = 0;
                while i < tail.len()
                    invariant
                        self.wf(),
                        decreases_to!(*mor => *tail),
                        *mor == edges_path(*head, *tail),
                        es == mor_view(*mor).edges(),
                        mor_view(*mor) == SpecTabMor::<V, E>::Edges(es),
                        es.len() == tail.len() + 1,
                        i <= tail.len(),
                        prev@ == es[i as int],
                        forall|j: int| 0 <= j <= i ==> self@.has_edge(#[trigger] es[j]),
                        forall|j: int| 0 <= j < i ==> self@.joined(#[trigger] es[j], es[j + 1]),
                    decreases tail.len() - i,
                {
                    let cur = &tail[i];
                    proof {
                        lemma_mor_view_edges(*head, *tail);
                        assert(es[i + 1] == edge_view(edge_at(*head, *tail, i + 1)));
                    }
                    if !self.has_edge(cur) {
                        assert(!self@.has_edge(es[i + 1]));
                        return false;
                    }
                    if !self.joined(prev, cur) {
                        assert(!self@.joined(es[i as int], es[i + 1]));
                        return false;
                    }
                    prev = cur;
                    i += 1;
                }
                true
            },
        }
    }
}

/// The mathematical values of the morphisms in a vector.
pub open spec fn mors_view<V, E>(mors: Vec<TabMor<V, E>>) -> Seq<SpecTabMor<V, E>> {
    Seq::new(mors.len() as nat, |i: int| mor_view(mors[i]))
}

/// The mathematical value of a path of morphisms.
pub open spec fn nested_mor_view<V, E>(path: Path<TabOb<V, E>, TabMor<V, E>>) -> SpecPath<
    SpecTabOb<V, E>,
    SpecTabMor<V, E>,
> {
    match path {
        Path::Id(x) => SpecPath::Id(x@),
        Path::Edges { head, tail } => SpecPath::Edges(seq![mor_view(head)] + mors_view(tail)),
    }
}

/// The view of the morphism made from a vector of edges holds the views of those edges.
pub proof fn lemma_from_vec_view<V, E>(mor: TabMor<V, E>, edges: Vec<TabEdge<V, E>>)
    requires
        mor@ == SpecPath::<TabOb<V, E>, TabEdge<V, E>>::Edges(edges@),
    ensures
        mor_view(mor) == SpecTabMor::<V, E>::Edges(edges_view(edges)),
{
    match mor {
        Path::Id(_) => {},
        Path::Edges { head, tail } => {
            let es = seq![head] + tail@;
            assert(es == edges@);
            assert(edges@.len() == tail.len() + 1);
            assert forall|i: int| 0 <= i < edges@.len() implies #[trigger] mor_view(mor).edges()[i]
                == edges_view(edges)[i] by {
                assert(es[i] == edges@[i]);
            }
            assert(mor_view(mor).edges() =~= edges_view(edges));
        },
    }
}

/// Appends duplicates of the edges of a morphism to a vector of edges.
fn append_edges<V: Ident, E: Ident>(acc: &mut Vec<TabEdge<V, E>>, mor: &TabMor<V, E>)
    ensures
        edges_view(*final(acc)) == edges_view(*old(acc)) + mor_view(*mor).edges(),
{
    let ghost before = *acc;
    match mor {
        Path::Id(_) => {
            assert(edges_view(*acc) =~= edges_view(before) + mor_view(*mor).edges());
        },
        Path::Edges { head, tail } => {
            proof {
                lemma_mor_view_edges(*head, *tail);
            }
            let ghost es = mor_view(*mor).edges();
            acc.push(duplicate_edge(head));
            let mut i: usize = 0;
            while i < tail.len()
                invariant
                    i <= tail.len(),
                    es.len() == tail.len() + 1,
                    forall|j: int| 0 <= j <= tail.len() ==> es[j] == edge_view(edge_at(*head, *tail, j)),
                    acc.len() == before.len() + 1 + i,
                    forall|j: int| 0 <= j < before.len() ==> (#[trigger] acc[j])@ == before[j]@,
                    forall|j: int| 0 <= j <= i ==> (#[trigger] acc[before.len() + j])@ == es[j],
                decreases tail.len() - i,
            {
                acc.push(duplicate_edge(&tail[i]));
                assert(es[i + 1] == edge_view(edge_at(*head, *tail, i + 1)));
                i += 1;
            }
            assert(edges_view(*acc) =~= edges_view(before) + es) by {
                assert forall|j: int| 0 <= j < acc.len() implies #[trigger] edges_view(*acc)[j] == (
                edges_view(before) + es)[j] by {
                    if j >= before.len() {
                        assert(acc[before.len() + (j - before.len())]@ == es[j - before.len()]);
                    }
                }
            }
        },
    }
}

impl<V: Ident, E: Ident> DiscreteTabGenerators<V, E> {
    /// Joins the pieces of a path of morphisms end to end, if each piece ends
    /// where the next one starts.
    pub fn flatten_in(&self, path: &Path<TabOb<V, E>, TabMor<V, E>>) -> (r: Option<TabMor<V, E>>)
        requires
            self.wf(),
        ensures
            match r {
                Some(m) => self@.flatten_in(nested_mor_view(*path)) == Some(mor_view(m)),
                None => self@.flatten_in(nested_mor_view(*path)) is None,
            },
    {
        match path {
            Path::Id(x) => Some(Path::Id(duplicate_ob(x))),
            Path::Edges { head, tail } => {
                let ghost ps = seq![mor_view(*head)] + mors_view(*tail);
                assert(nested_mor_view(*path) == SpecPath::<SpecTabOb<V, E>, SpecTabMor<V, E>>::Edges(ps));
                let mut acc: Vec<TabEdge<V, E>> = Vec::new();
                append_edges(&mut acc, head);
                proof {
                    lemma_all_edges_step(ps, 0);
                    assert(all_edges(ps.take(0)) =~= Seq::<SpecTabEdge<V, E>>::empty());
                    assert(edges_view(acc) =~= all_edges(ps.take(1)));
                }
                let mut prev: &TabMor<V, E> = head;
                let mut i: usize = 0;
                while i < tail.len()
                    invariant
                        self.wf(),
                        i <= tail.len(),
                        ps == seq![mor_view(*head)] + mors_view(*tail),
                        nested_mor_view(*path) == SpecPath::<SpecTabOb<V, E>, SpecTabMor<V, E>>::Edges(
                            ps,
                        ),
                        mor_view(*prev) == ps[i as int],
                        forall|j: int|
                            0 <= j < i ==> self@.mor_tgt(#[trigger] ps[j]) is Some && self@.mor_tgt(ps[j])
                                == self@.mor_src(ps[j + 1]),
                        edges_view(acc) == all_edges(ps.take(i + 1)),
                    decreases tail.len() - i,
                {
                    let cur = &tail[i];
                    assert(mor_view(*cur) == ps[i + 1]);
                    let end = self.mor_tgt(prev);
                    let start = self.mor_src(cur);
                    if !Self::meet(&end, &start) {
                        assert(!(self@.mor_tgt(ps[i as int]) is Some && self@.mor_tgt(ps[i as int])
                            == self@.mor_src(ps[i + 1])));
                        return None;
                    }
                    proof {
                        lemma_all_edges_step(ps, i + 1);
                    }
                    append_edges(&mut acc, cur);
                    prev = cur;
                    i += 1;
                }
                assert(ps.take(tail.len() + 1) == ps);
                let ghost joined = acc;
                match Path::from_vec(acc) {
                    Some(mor) => {
                        proof {
                            lemma_from_vec_view(mor, joined);
                        }
                        Some(mor)
                    },
                    None => {
                        proof {
                            lemma_all_edges_step(ps, 0);
                            lemma_all_edges_prefix(ps, 1);
                            assert(ps[0].edges().len() == 0);
                        }
                        Some(duplicate_mor(head))
                    },
                }
            },
        }
    }
}

/// A model of a discrete tabulator theory as a mathematical value: generators
/// with a type for each of them.
#[verifier::reject_recursive_types(Id)]
#[verifier::reject_recursive_types(ThId)]
pub struct SpecTabModel<Id, ThId> {
    /// The basic objects and morphisms, with domains and codomains.
    pub gens: SpecTabGens<Id, Id>,
    /// The declared object type of each basic object.
    pub ob_types: Map<Id, TabObType<ThId, ThId>>,
    /// The declared morphism type of each basic morphism.
    pub mor_types: Map<Id, TabMorType<ThId, ThId>>,
}

impl<Id, ThId> SpecTabModel<Id, ThId> {
    /// The model without generators.
    pub open spec fn empty() -> Self {
        SpecTabModel { gens: SpecTabGens::empty(), ob_types: Map::empty(), mor_types: Map::empty() }
    }

    /// Do both models have the same generators, domains, codomains and
    /// types, whatever the order of their insertion?
    pub open spec fn same_data(self, other: Self) -> bool {
        &&& self.gens.same_data(other.gens)
        &&& self.ob_types == other.ob_types
        &&& self.mor_types == other.mor_types
    }

    /// The model after the basic object `x` was added with type `typ`: a new
    /// object is put last, an object that was there gets the new type.
    pub open spec fn with_ob(self, x: Id, typ: TabObType<ThId, ThId>) -> Self {
        SpecTabModel {
            gens: SpecTabGens {
                objects: if self.gens.objects.contains(x) {
                    self.gens.objects
                } else {
                    self.gens.objects.push(x)
                },
                ..self.gens
            },
            ob_types: self.ob_types.insert(x, typ),
            ..self
        }
    }

    /// The model after the basic morphism `f: dom -> cod` was added with type
    /// `typ`: a new morphism is put last, a morphism that was there gets the
    /// new domain, codomain and type.
    pub open spec fn with_mor(
        self,
        f: Id,
        dom: SpecTabOb<Id, Id>,
        cod: SpecTabOb<Id, Id>,
        typ: TabMorType<ThId, ThId>,
    ) -> Self {
        SpecTabModel {
            gens: SpecTabGens {
                morphisms: if self.gens.morphisms.contains(f) {
                    self.gens.morphisms
                } else {
                    self.gens.morphisms.push(f)
                },
                dom: self.gens.dom.insert(f, dom),
                cod: self.gens.cod.insert(f, cod),
                ..self.gens
            },
            mor_types: self.mor_types.insert(f, typ),
            ..self
        }
    }

    /// The type of an object, if it has one: the declared type of a basic
    /// object, or the tabulator of the type of the tabulated morphism.
    pub open spec fn ob_type(self, th: SpecTabTheory<ThId, ThId>, ob: SpecTabOb<Id, Id>) -> Option<
        TabObType<ThId, ThId>,
    >
        decreases ob,
    {
        match ob {
            SpecTabOb::Basic(x) => self.ob_types.get(x),
            SpecTabOb::Tabulated(p) => match self.mor_type(th, *p) {
                Some(t) => Some(TabObType::Tabulator(Box::new(t))),
                None => None,
            },
        }
    }

    /// The type that an edge contributes to the type of a path, if it has
    /// one: the declared type of a basic morphism, or, for a square, the hom
    /// type of the tabulator of the type of its domain.
    pub open spec fn edge_type(self, th: SpecTabTheory<ThId, ThId>, edge: SpecTabEdge<Id, Id>) -> Option<
        TabMorType<ThId, ThId>,
    >
        decreases edge,
    {
        match edge {
            SpecTabEdge::Basic(f) => self.mor_types.get(f),
            SpecTabEdge::Square { dom, .. } => match self.mor_type(th, *dom) {
                Some(t) => Some(TabMorType::Hom(Box::new(TabObType::Tabulator(Box::new(t))))),
                None => None,
            },
        }
    }

    /// Do all of the edges `es` have a type?
    pub open spec fn edges_typed(self, th: SpecTabTheory<ThId, ThId>, es: Seq<SpecTabEdge<Id, Id>>) -> bool
        decreases es, 1int,
    {
        forall|i: int| 0 <= i < es.len() ==> self.edge_type(th, #[trigger] es[i]) is Some
    }

    /// The types of the edges `es`, in order.
    pub open spec fn edge_types(self, th: SpecTabTheory<ThId, ThId>, es: Seq<SpecTabEdge<Id, Id>>) -> Seq<
        TabMorType<ThId, ThId>,
    >
        decreases es, 1int,
    {
        Seq::new(
            es.len(),
            |i: int|
                if 0 <= i < es.len() {
                    self.edge_type(th, es[i]).unwrap()
                } else {
                    arbitrary()
                },
        )
    }

    /// The type of a morphism, if it has one: the composite, in the theory,
    /// of the types of its edges, or the hom type of the type of its object.
    pub open spec fn mor_type(self, th: SpecTabTheory<ThId, ThId>, mor: SpecTabMor<Id, Id>) -> Option<
        TabMorType<ThId, ThId>,
    >
        decreases mor,
    {
        match mor {
            SpecPath::Id(x) => match self.ob_type(th, x) {
                Some(t) => th.compose(SpecPath::Id(t)),
                None => None,
            },
            SpecPath::Edges(es) => if self.edges_typed(th, es) {
                th.compose(SpecPath::Edges(self.edge_types(th, es)))
            } else {
                None
            },
        }
    }
}

/// Adding a basic object that is registered again adds no generator: the
/// object keeps its place and gets the new type, and every other type stays.
pub proof fn lemma_readd_ob<Id, ThId>(m: SpecTabModel<Id, ThId>, x: Id, typ: TabObType<ThId, ThId>)
    requires
        m.gens.objects.contains(x),
    ensures
        m.with_ob(x, typ).gens == m.gens,
        m.with_ob(x, typ).mor_types == m.mor_types,
        m.with_ob(x, typ).ob_types[x] == typ,
        forall|y: Id| y != x && m.ob_types.contains_key(y) ==> #[trigger] m.with_ob(x, typ).ob_types[y]
            == m.ob_types[y],
{
}

/// Adding a basic morphism that is registered again adds no generator: the
/// morphism keeps its place and gets the new domain, codomain and type, and
/// the other morphisms keep theirs.
pub proof fn lemma_readd_mor<Id, ThId>(
    m: SpecTabModel<Id, ThId>,
    f: Id,
    dom: SpecTabOb<Id, Id>,
    cod: SpecTabOb<Id, Id>,
    typ: TabMorType<ThId, ThId>,
)
    requires
        m.gens.morphisms.contains(f),
    ensures
        m.with_mor(f, dom, cod, typ).gens.objects == m.gens.objects,
        m.with_mor(f, dom, cod, typ).gens.morphisms == m.gens.morphisms,
        m.with_mor(f, dom, cod, typ).ob_types == m.ob_types,
        m.with_mor(f, dom, cod, typ).gens.dom[f] == dom,
        m.with_mor(f, dom, cod, typ).gens.cod[f] == cod,
        m.with_mor(f, dom, cod, typ).mor_types[f] == typ,
        forall|g: Id|
            g != f ==> #[trigger] m.with_mor(f, dom, cod, typ).gens.dom.get(g) == m.gens.dom.get(g)
                && m.with_mor(f, dom, cod, typ).gens.cod.get(g) == m.gens.cod.get(g) && m.with_mor(
                f,
                dom,
                cod,
                typ,
            ).mor_types.get(g) == m.mor_types.get(g),
{
}

/// A finitely presented model of a discrete tabulator theory.
///
/// Its objects are basic objects and tabulated morphisms; its morphisms are
/// paths of basic morphisms and of commuting squares between tabulated
/// morphisms.
#[derive(Debug)]
pub struct DiscreteTabModel<Id, ThId> {
    theory: Arc<DiscreteTabTheory<ThId, ThId>>,
    generators: DiscreteTabGenerators<Id, Id>,
    ob_types: Column<Id, TabObType<ThId, ThId>>,
    mor_types: Column<Id, TabMorType<ThId, ThId>>,
}

/// A model of a discrete tabulator theory where both theory and model have
/// keys of type `Ustr`.
pub type UstrDiscreteTabModel = DiscreteTabModel<ustr::Ustr, ustr::Ustr>;

impl<Id, ThId> View for DiscreteTabModel<Id, ThId> {
    type V = SpecTabModel<Id, ThId>;

    closed spec fn view(&self) -> SpecTabModel<Id, ThId> {
        SpecTabModel { gens: self.generators@, ob_types: self.ob_types@, mor_types: self.mor_types@ }
    }
}

impl<Id: Ident, ThId: Ident> DiscreteTabModel<Id, ThId> {
    /// The theory that this is a model of.
    pub closed spec fn theory_of(&self) -> DiscreteTabTheory<ThId, ThId> {
        *self.theory
    }

    /// The stored data is well formed: the theory is, and the basic objects
    /// and morphisms are exactly the identifiers with a type.
    pub closed spec fn wf(&self) -> bool {
        &&& self.theory.valid()
        &&& self.generators.wf()
        &&& self.ob_types.wf()
        &&& self.mor_types.wf()
        &&& self.ob_types.keys() == self.generators@.objects
        &&& self.mor_types.keys() == self.generators@.morphisms
    }

    /// In a well-formed model no generator is enumerated twice, and the
    /// basic objects and morphisms are exactly the identifiers that have a
    /// type; the basic morphisms are also exactly those with a domain and
    /// with a codomain.
    pub proof fn lemma_wf(&self)
        requires
            self.wf(),
        ensures
            self.theory_of().valid(),
            self@.gens.objects.no_duplicates(),
            self@.gens.morphisms.no_duplicates(),
            forall|x: Id| self@.gens.objects.contains(x) <==> #[trigger] self@.ob_types.contains_key(x),
            forall|e: Id| self@.gens.morphisms.contains(e) <==> #[trigger] self@.mor_types.contains_key(e),
            forall|e: Id| self@.gens.morphisms.contains(e) <==> #[trigger] self@.gens.dom.contains_key(e),
            forall|e: Id| self@.gens.morphisms.contains(e) <==> #[trigger] self@.gens.cod.contains_key(e),
    {
        self.generators.lemma_wf();
    }

    /// Creates an empty model of the given theory.
    pub fn new(theory: Arc<DiscreteTabTheory<ThId, ThId>>) -> (model: Self)
        requires
            theory.valid(),
        ensures
            model.wf(),
            model.theory_of() == *theory,
            model@ == SpecTabModel::<Id, ThId>::empty(),
    {
        DiscreteTabModel {
            theory,
            generators: DiscreteTabGenerators::new(),
            ob_types: Column::new(),
            mor_types: Column::new(),
        }
    }

    /// Do both models hold the same generators, domains, codomains and
    /// types, whatever the order of their insertion?
    pub fn same_data(&self, other: &Self) -> (b: bool)
        ensures
            self.wf() && other.wf() ==> b == self@.same_data(other@),
    {
        self.generators.same_data(&other.generators) && self.ob_types.same_entries(&other.ob_types)
            && self.mor_types.same_entries(&other.mor_types)
    }

    /// Are both models equal, given whether they share their theory? They
    /// are if they share it and hold the same data.
    pub fn same_model_if(&self, other: &Self, shared: bool) -> (b: bool)
        ensures
            self.wf() && other.wf() ==> b == (shared && self@.same_data(other@)),
    {
        shared && self.same_data(other)
    }

    /// Are both models bound to the same shared theory, and do they hold the
    /// same data?
    ///
    /// Models are bound to the same theory if they share it: theories that
    /// are held apart count as different, also where they are equal.
    pub fn same_model(&self, other: &Self) -> (b: bool)
        ensures
            self.wf() && other.wf() && b ==> self.theory_of() == other.theory_of() && self@.same_data(
                other@,
            ),
    {
        let shared = same_allocation(&self.theory, &other.theory);
        self.same_model_if(other, shared)
    }

    /// Convenience method to turn a morphism into an object.
    pub fn tabulated(&self, mor: TabMor<Id, Id>) -> (ob: TabOb<Id, Id>)
        ensures
            ob@ == SpecTabOb::Tabulated(Box::new(mor_view(mor))),
    {
        TabOb::Tabulated(Box::new(mor))
    }

    /// Convenience method to turn a morphism generator into an object.
    pub fn tabulated_gen(&self, f: Id) -> (ob: TabOb<Id, Id>)
        ensures
            ob@ == SpecTabOb::Tabulated(Box::new(SpecTabMor::<Id, Id>::single(SpecTabEdge::Basic(f)))),
    {
        let mor = Path::single(TabEdge::Basic(f));
        proof {
            lemma_single_view(mor, TabEdge::Basic(f));
        }
        self.tabulated(mor)
    }

    /// Adds a basic object to the model, returning whether it is new. An
    /// object that was there gets the new type.
    pub fn add_ob(&mut self, x: Id, typ: TabObType<ThId, ThId>) -> (fresh: bool)
        requires
            old(self).wf(),
        ensures
            final(self).wf(),
            final(self).theory_of() == old(self).theory_of(),
            fresh == !old(self)@.gens.objects.contains(x),
            final(self)@ == old(self)@.with_ob(x, typ),
    {
        self.ob_types.set(x.duplicate(), typ);
        self.generators.add_object(x)
    }

    /// Adds a basic morphism to the model, returning whether it is new. A
    /// morphism that was there gets the new domain, codomain and type.
    pub fn add_mor(
        &mut self,
        f: Id,
        dom: TabOb<Id, Id>,
        cod: TabOb<Id, Id>,
        typ: TabMorType<ThId, ThId>,
    ) -> (fresh: bool)
        requires
            old(self).wf(),
        ensures
            final(self).wf(),
            final(self).theory_of() == old(self).theory_of(),
            fresh == !old(self)@.gens.morphisms.contains(f),
            final(self)@ == old(self)@.with_mor(f, dom@, cod@, typ),
    {
        self.mor_types.set(f.duplicate(), typ);
        self.generators.add_morphism(f, dom, cod)
    }

    /// Does the object exist in the model?
    pub fn has_ob(&self, x: &TabOb<Id, Id>) -> (b: bool)
        requires
            self.wf(),
        ensures
            b == self@.gens.has_vertex(x@),
    {
        self.generators.has_vertex(x)
    }

    /// Does the morphism exist in the model?
    pub fn has_mor(&self, path: &TabMor<Id, Id>) -> (b: bool)
        requires
            self.wf(),
        ensures
            b == self@.gens.contains_mor(mor_view(*path)),
    {
        self.generators.contains_mor(path)
    }

    /// The domain of a morphism whose source is determined.
    pub fn dom(&self, path: &TabMor<Id, Id>) -> (x: TabOb<Id, Id>)
        requires
            self.wf(),
            self@.gens.mor_src(mor_view(*path)) is Some,
        ensures
            self@.gens.mor_src(mor_view(*path)) == Some(x@),
    {
        self.generators.mor_src(path).unwrap()
    }

    /// The codomain of a morphism whose target is determined.
    pub fn cod(&self, path: &TabMor<Id, Id>) -> (x: TabOb<Id, Id>)
        requires
            self.wf(),
            self@.gens.mor_tgt(mor_view(*path)) is Some,
        ensures
            self@.gens.mor_tgt(mor_view(*path)) == Some(x@),
    {
        self.generators.mor_tgt(path).unwrap()
    }

    /// Can the path of morphisms be composed: does each piece end where the
    /// next one starts?
    pub fn composable(&self, path: &Path<TabOb<Id, Id>, TabMor<Id, Id>>) -> (b: bool)
        requires
            self.wf(),
        ensures
            b == self@.gens.composable(nested_mor_view(*path)),
    {
        self.generators.flatten_in(path).is_some()
    }

    /// The composite of a path of morphisms that can be composed: its pieces
    /// joined end to end.
    pub fn compose(&self, path: Path<TabOb<Id, Id>, TabMor<Id, Id>>) -> (m: TabMor<Id, Id>)
        requires
            self.wf(),
            self@.gens.composable(nested_mor_view(path)),
        ensures
            mor_view(m) == flatten(nested_mor_view(path)),
    {
        self.generators.flatten_in(&path).unwrap()
    }

    /// The domain of a basic morphism of the model.
    pub fn morphism_generator_dom(&self, f: &Id) -> (x: TabOb<Id, Id>)
        requires
            self.wf(),
            self@.gens.morphisms.contains(*f),
        ensures
            self@.gens.dom[*f] == x@,
    {
        proof {
            self.lemma_wf();
        }
        self.generators.src(&TabEdge::Basic(f.duplicate()))
    }

    /// The codomain of a basic morphism of the model.
    pub fn morphism_generator_cod(&self, f: &Id) -> (x: TabOb<Id, Id>)
        requires
            self.wf(),
            self@.gens.morphisms.contains(*f),
        ensures
            self@.gens.cod[*f] == x@,
    {
        proof {
            self.lemma_wf();
        }
        self.generators.tgt(&TabEdge::Basic(f.duplicate()))
    }

    /// The type of an object that has one.
    pub fn type_ob(&self, ob: &TabOb<Id, Id>) -> (t: TabObType<ThId, ThId>)
        requires
            self.wf(),
            self@.ob_type(self.theory_of()@, ob@) is Some,
        ensures
            self@.ob_type(self.theory_of()@, ob@) == Some(t),
        decreases ob,
    {
        match ob {
            TabOb::Basic(x) => self.ob_types.get(x).unwrap().duplicate(),
            TabOb::Tabulated(m) => TabObType::Tabulator(Box::new(self.type_mor(m))),
        }
    }

    /// The type that an edge which has one contributes to the type of a path.
    pub fn type_edge(&self, edge: &TabEdge<Id, Id>) -> (t: TabMorType<ThId, ThId>)
        requires
            self.wf(),
            self@.edge_type(self.theory_of()@, edge@) is Some,
        ensures
            self@.edge_type(self.theory_of()@, edge@) == Some(t),
        decreases edge,
    {
        match edge {
            TabEdge::Basic(f) => self.mor_types.get(f).unwrap().duplicate(),
            TabEdge::Square { dom, .. } => {
                let typ = self.type_mor(dom);
                TabMorType::Hom(Box::new(TabObType::Tabulator(Box::new(typ))))
            },
        }
    }

    /// The type of a morphism that has one.
    pub fn type_mor(&self, mor: &TabMor<Id, Id>) -> (t: TabMorType<ThId, ThId>)
        requires
            self.wf(),
            self@.mor_type(self.theory_of()@, mor_view(*mor)) is Some,
        ensures
            self@.mor_type(self.theory_of()@, mor_view(*mor)) == Some(t),
        decreases mor,
    {
        let ghost th = self.theory_of()@;
        let types: Path<TabObType<ThId, ThId>, TabMorType<ThId, ThId>> = match mor {
            Path::Id(x) => Path::Id(self.type_ob(x)),
            Path::Edges { head, tail } => {
                proof {
                    lemma_mor_view_edges(*head, *tail);
                }
                let ghost es = mor_view(*mor).edges();
                assert(self@.edges_typed(th, es));
                assert(self@.edge_type(th, es[0]) is Some);
                let first = self.type_edge(head);
                let mut rest: Vec<TabMorType<ThId, ThId>> = Vec::new();
                let mut i: usize = 0;
                while i < tail.len()
                    invariant
                        self.wf(),
                        th == self.theory_of()@,
                        decreases_to!(*mor => *tail),
                        es.len() == tail.len() + 1,
                        forall|j: int|
                            0 <= j <= tail.len() ==> es[j] == edge_view(edge_at(*head, *tail, j)),
                        self@.edges_typed(th, es),
                        i <= tail.len(),
                        rest.len() == i,
                        forall|j: int|
                            0 <= j < i ==> Some(#[trigger] rest[j]) == self@.edge_type(th, es[j + 1]),
                    decreases tail.len() - i,
                {
                    assert(es[i + 1] == edge_view(edge_at(*head, *tail, i + 1)));
                    assert(self@.edge_type(th, es[i + 1]) is Some);
                    rest.push(self.type_edge(&tail[i]));
                    i += 1;
                }
                let types = Path::Edges { head: first, tail: rest };
                assert(types@.edges() =~= self@.edge_types(th, es));
                types
            },
        };
        self.theory.compose_types(types)
    }
}

impl<Id: Ident, ThId: Ident> DblModel for DiscreteTabModel<Id, ThId> {
    type Ob = TabOb<Id, Id>;

    type Mor = TabMor<Id, Id>;

    type ObType = TabObType<ThId, ThId>;

    type MorType = TabMorType<ThId, ThId>;

    type ObOp = TabObOp<ThId, ThId>;

    type MorOp = TabMorOp<ThId, ThId>;

    type Theory = DiscreteTabTheory<ThId, ThId>;

    open spec fn well_formed(&self) -> bool {
        self.wf()
    }

    open spec fn the_theory(&self) -> DiscreteTabTheory<ThId, ThId> {
        self.theory_of()
    }

    open spec fn ob_has_type(&self, x: TabOb<Id, Id>) -> bool {
        self@.ob_type(self.theory_of()@, x@) is Some
    }

    open spec fn mor_has_type(&self, m: TabMor<Id, Id>) -> bool {
        self@.mor_type(self.theory_of()@, mor_view(m)) is Some
    }

    open spec fn type_of_ob(&self, x: TabOb<Id, Id>) -> TabObType<ThId, ThId> {
        self@.ob_type(self.theory_of()@, x@).unwrap()
    }

    open spec fn type_of_mor(&self, m: TabMor<Id, Id>) -> TabMorType<ThId, ThId> {
        self@.mor_type(self.theory_of()@, mor_view(m)).unwrap()
    }

    /// The identity acts on every object. A projection acts on a tabulated
    /// morphism whose source, or target, is determined.
    open spec fn ob_act_defined(&self, x: TabOb<Id, Id>, f: TabObOp<ThId, ThId>) -> bool {
        match f {
            TabObOp::Id(_) => true,
            TabObOp::ProjSrc(_) => x@ is Tabulated && self@.gens.mor_src(*x@->Tabulated_0) is Some,
            TabObOp::ProjTgt(_) => x@ is Tabulated && self@.gens.mor_tgt(*x@->Tabulated_0) is Some,
        }
    }

    /// The identity returns the object. The projections return the source
    /// and the target of the tabulated morphism.
    open spec fn ob_act_result(&self, x: TabOb<Id, Id>, f: TabObOp<ThId, ThId>, r: TabOb<Id, Id>) -> bool {
        match f {
            TabObOp::Id(_) => r@ == x@,
            TabObOp::ProjSrc(_) => self@.gens.mor_src(*x@->Tabulated_0) == Some(r@),
            TabObOp::ProjTgt(_) => self@.gens.mor_tgt(*x@->Tabulated_0) == Some(r@),
        }
    }

    /// Only the identity acts on morphisms.
    open spec fn mor_act_defined(&self, m: TabMor<Id, Id>, op: TabMorOp<ThId, ThId>) -> bool {
        op is Id
    }

    open spec fn mor_act_result(&self, m: TabMor<Id, Id>, op: TabMorOp<ThId, ThId>, r: TabMor<Id, Id>) -> bool {
        mor_view(r) == mor_view(m)
    }

    fn theory(&self) -> (th: &DiscreteTabTheory<ThId, ThId>) {
        &self.theory
    }

    fn ob_type(&self, x: &TabOb<Id, Id>) -> (t: TabObType<ThId, ThId>) {
        self.type_ob(x)
    }

    fn mor_type(&self, m: &TabMor<Id, Id>) -> (t: TabMorType<ThId, ThId>) {
        self.type_mor(m)
    }

    fn ob_act(&self, x: TabOb<Id, Id>, f: &TabObOp<ThId, ThId>) -> (r: TabOb<Id, Id>) {
        match f {
            TabObOp::Id(_) => x,
            TabObOp::ProjSrc(_) => match x {
                TabOb::Tabulated(m) => self.dom(&m),
                TabOb::Basic(v) => TabOb::Basic(v),
            },
            TabObOp::ProjTgt(_) => match x {
                TabOb::Tabulated(m) => self.cod(&m),
                TabOb::Basic(v) => TabOb::Basic(v),
            },
        }
    }

    fn mor_act(&self, m: TabMor<Id, Id>, op: &TabMorOp<ThId, ThId>) -> (r: TabMor<Id, Id>) {
        m
    }
}

impl<Id: Ident, ThId: Ident> FgDblModel for DiscreteTabModel<Id, ThId> {
    type ObGen = Id;

    type MorGen = Id;

    open spec fn ob_gens(&self) -> Seq<Id> {
        self@.gens.objects
    }

    open spec fn mor_gens(&self) -> Seq<Id> {
        self@.gens.morphisms
    }

    open spec fn type_of_ob_gen(&self, x: Id) -> TabObType<ThId, ThId> {
        self@.ob_types[x]
    }

    open spec fn type_of_mor_gen(&self, f: Id) -> TabMorType<ThId, ThId> {
        self@.mor_types[f]
    }

    fn object_generators(&self) -> (gens: Vec<Id>) {
        self.generators.objects()
    }

    fn morphism_generators(&self) -> (gens: Vec<Id>) {
        self.generators.morphisms()
    }

    fn ob_gen_type(&self, ob: &Id) -> (t: TabObType<ThId, ThId>) {
        proof {
            self.lemma_wf();
        }
        self.ob_types.get(ob).unwrap().duplicate()
    }

    fn mor_gen_type(&self, mor: &Id) -> (t: TabMorType<ThId, ThId>) {
        proof {
            self.lemma_wf();
        }
        self.mor_types.get(mor).unwrap().duplicate()
    }
}

} // verus!
