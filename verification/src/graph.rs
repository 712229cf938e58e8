//! Finite graphs, and paths inside them.

use vstd::prelude::*;
use crate::ident::Ident;
use crate::path::{flatten, nested_view, Path, SpecPath};
use crate::zero::{concat_map, lemma_concat_map_step, Column, FinSet};

verus! {

/// A failure of a graph to be well defined.
#[derive(Debug, PartialEq, Eq)]
pub enum InvalidGraphData<E> {
    /// The edge has no source, or its source is not a vertex of the graph.
    Src(E),
    /// The edge has no target, or its target is not a vertex of the graph.
    Tgt(E),
}

/// A finite graph as a mathematical value.
///
/// Sources and targets are partial: an edge may lack either, and either may
/// name something that is not a vertex.
#[verifier::reject_recursive_types(E)]
pub struct SpecGraph<V, E> {
    /// The vertices, in the order of their insertion.
    pub vertices: Seq<V>,
    /// The edges, in the order of their insertion.
    pub edges: Seq<E>,
    /// The source of each edge that has one.
    pub src: Map<E, V>,
    /// The target of each edge that has one.
    pub tgt: Map<E, V>,
}

impl<V, E> SpecGraph<V, E> {
    /// The graph without vertices and edges.
    pub open spec fn empty() -> Self {
        SpecGraph { vertices: Seq::empty(), edges: Seq::empty(), src: Map::empty(), tgt: Map::empty() }
    }

    /// Is `v` a vertex of the graph?
    pub open spec fn has_vertex(self, v: V) -> bool {
        self.vertices.contains(v)
    }

    /// Is `e` an edge of the graph?
    pub open spec fn has_edge(self, e: E) -> bool {
        self.edges.contains(e)
    }

    /// Does the edge `e` have a source that is a vertex of the graph?
    pub open spec fn src_ok(self, e: E) -> bool {
        self.src.contains_key(e) && self.has_vertex(self.src[e])
    }

    /// Does the edge `e` have a target that is a vertex of the graph?
    pub open spec fn tgt_ok(self, e: E) -> bool {
        self.tgt.contains_key(e) && self.has_vertex(self.tgt[e])
    }

    /// The graph with `v` among its vertices.
    pub open spec fn with_vertex(self, v: V) -> Self {
        SpecGraph {
            vertices: if self.has_vertex(v) {
                self.vertices
            } else {
                self.vertices.push(v)
            },
            ..self
        }
    }

    /// The graph with `e` among its edges, sources and targets untouched.
    pub open spec fn with_edge(self, e: E) -> Self {
        SpecGraph {
            edges: if self.has_edge(e) {
                self.edges
            } else {
                self.edges.push(e)
            },
            ..self
        }
    }

    /// For each edge, its source error, if it has one.
    pub open spec fn src_error(self) -> spec_fn(E) -> Seq<InvalidGraphData<E>> {
        |e: E|
            if self.src_ok(e) {
                Seq::empty()
            } else {
                seq![InvalidGraphData::Src(e)]
            }
    }

    /// For each edge, its target error, if it has one.
    pub open spec fn tgt_error(self) -> spec_fn(E) -> Seq<InvalidGraphData<E>> {
        |e: E|
            if self.tgt_ok(e) {
                Seq::empty()
            } else {
                seq![InvalidGraphData::Tgt(e)]
            }
    }

    /// The defects of the graph: first the source errors, then the target
    /// errors, each in the order of the edges.
    pub open spec fn invalid(self) -> Seq<InvalidGraphData<E>> {
        concat_map(self.edges, self.src_error()) + concat_map(self.edges, self.tgt_error())
    }

    /// The vertex at which the path starts, if it is determined.
    pub open spec fn path_src(self, p: SpecPath<V, E>) -> Option<V> {
        match p {
            SpecPath::Id(v) => Some(v),
            SpecPath::Edges(es) => self.src.get(es.first()),
        }
    }

    /// The vertex at which the path ends, if it is determined.
    pub open spec fn path_tgt(self, p: SpecPath<V, E>) -> Option<V> {
        match p {
            SpecPath::Id(v) => Some(v),
            SpecPath::Edges(es) => self.tgt.get(es.last()),
        }
    }

    /// Does the edge `e` end where the edge `f` starts?
    pub open spec fn joined(self, e: E, f: E) -> bool {
        self.tgt.contains_key(e) && self.src.contains_key(f) && self.tgt[e] == self.src[f]
    }

    /// Are all of `es` edges of the graph, each ending where the next starts?
    pub open spec fn contains_edges(self, es: Seq<E>) -> bool {
        &&& forall|i: int| 0 <= i < es.len() ==> self.has_edge(#[trigger] es[i])
        &&& forall|i: int| 0 <= i < es.len() - 1 ==> self.joined(#[trigger] es[i], es[i + 1])
    }

    /// Is the path contained in the graph: its vertex is one of the graph, or
    /// its edges are edges of the graph and each ends where the next starts?
    pub open spec fn contains_path(self, p: SpecPath<V, E>) -> bool {
        match p {
            SpecPath::Id(v) => self.has_vertex(v),
            SpecPath::Edges(es) => self.contains_edges(es),
        }
    }

    /// The path `p` followed by the path `q`, if `p` ends where `q` starts.
    pub open spec fn concat(self, p: SpecPath<V, E>, q: SpecPath<V, E>) -> Option<SpecPath<V, E>> {
        if q is Id && self.path_tgt(p) == Some(q->Id_0) {
            Some(p)
        } else if p is Id && self.path_src(q) == Some(p->Id_0) {
            Some(q)
        } else if p is Edges && q is Edges && self.joined(p.edges().last(), q.edges().first()) {
            Some(SpecPath::Edges(p.edges() + q.edges()))
        } else {
            None
        }
    }

    /// Does the path `p` end at a determined vertex, at which `q` starts?
    pub open spec fn meet(self, p: SpecPath<V, E>, q: SpecPath<V, E>) -> bool {
        self.path_tgt(p) is Some && self.path_tgt(p) == self.path_src(q)
    }

    /// Does each of the paths `ps` end where the next one starts?
    pub open spec fn chained(self, ps: Seq<SpecPath<V, E>>) -> bool {
        forall|i: int| 0 <= i < ps.len() - 1 ==> self.meet(#[trigger] ps[i], ps[i + 1])
    }

    /// Does each piece of the path of paths end where the next one starts?
    pub open spec fn composable(self, pp: SpecPath<V, SpecPath<V, E>>) -> bool {
        match pp {
            SpecPath::Id(_) => true,
            SpecPath::Edges(ps) => self.chained(ps),
        }
    }

    /// The pieces of the path of paths joined end to end, if they are composable.
    pub open spec fn flatten_in(self, pp: SpecPath<V, SpecPath<V, E>>) -> Option<SpecPath<V, E>> {
        if self.composable(pp) {
            Some(flatten(pp))
        } else {
            None
        }
    }
}

/// A finite graph with partially defined sources and targets.
#[derive(Debug)]
pub struct Graph<V, E> {
    vertices: FinSet<V>,
    edges: FinSet<E>,
    src: Column<E, V>,
    tgt: Column<E, V>,
}

impl<V, E> View for Graph<V, E> {
    type V = SpecGraph<V, E>;

    closed spec fn view(&self) -> SpecGraph<V, E> {
        SpecGraph { vertices: self.vertices@, edges: self.edges@, src: self.src@, tgt: self.tgt@ }
    }
}

impl<V: Ident, E: Ident> Graph<V, E> {
    /// The stored sets and columns are well formed. Nothing is asked of how
    /// they relate: insertion is permissive.
    pub closed spec fn wf(&self) -> bool {
        &&& self.vertices.wf()
        &&& self.edges.wf()
        &&& self.src.wf()
        &&& self.tgt.wf()
    }

    /// In a well-formed graph no vertex and no edge is enumerated twice.
    pub proof fn lemma_wf(&self)
        requires
            self.wf(),
        ensures
            self@.vertices.no_duplicates(),
            self@.edges.no_duplicates(),
    {
    }

    /// The graph without vertices and edges.
    pub fn new() -> (g: Self)
        ensures
            g.wf(),
            g@ == SpecGraph::<V, E>::empty(),
    {
        Graph { vertices: FinSet::new(), edges: FinSet::new(), src: Column::new(), tgt: Column::new() }
    }

    /// Is `v` a vertex of the graph?
    pub fn has_vertex(&self, v: &V) -> (b: bool)
        ensures
            b == self@.has_vertex(*v),
    {
        self.vertices.contains(v)
    }

    /// Is `e` an edge of the graph?
    pub fn has_edge(&self, e: &E) -> (b: bool)
        ensures
            b == self@.has_edge(*e),
    {
        self.edges.contains(e)
    }

    /// Adds a vertex, returning whether it is new.
    pub fn add_vertex(&mut self, v: V) -> (fresh: bool)
        requires
            old(self).wf(),
        ensures
            final(self).wf(),
            fresh == !old(self)@.has_vertex(v),
            final(self)@ == old(self)@.with_vertex(v),
    {
        self.vertices.insert(v)
    }

    /// Adds an edge with its source and target, returning whether the edge is
    /// new. An edge that is already there gets the new source and target.
    pub fn add_edge(&mut self, e: E, src: V, tgt: V) -> (fresh: bool)
        requires
            old(self).wf(),
        ensures
            final(self).wf(),
            fresh == !old(self)@.has_edge(e),
            final(self)@ == (SpecGraph {
                src: old(self)@.src.insert(e, src),
                tgt: old(self)@.tgt.insert(e, tgt),
                ..old(self)@.with_edge(e)
            }),
    {
        self.src.set(e.duplicate(), src);
        self.tgt.set(e.duplicate(), tgt);
        self.edges.insert(e)
    }

    /// Adds an edge without source and target, returning whether the edge is new.
    pub fn make_edge(&mut self, e: E) -> (fresh: bool)
        requires
            old(self).wf(),
        ensures
            final(self).wf(),
            fresh == !old(self)@.has_edge(e),
            final(self)@ == old(self)@.with_edge(e),
    {
        self.edges.insert(e)
    }

    /// The source of the edge, if it is set.
    pub fn get_src(&self, e: &E) -> (r: Option<&V>)
        requires
            self.wf(),
        ensures
            match r {
                Some(v) => self@.src.get(*e) == Some(*v),
                None => self@.src.get(*e) is None,
            },
    {
        self.src.get(e)
    }

    /// The target of the edge, if it is set.
    pub fn get_tgt(&self, e: &E) -> (r: Option<&V>)
        requires
            self.wf(),
        ensures
            match r {
                Some(v) => self@.tgt.get(*e) == Some(*v),
                None => self@.tgt.get(*e) is None,
            },
    {
        self.tgt.get(e)
    }

    /// Sets the source of an edge, returning the source it had before, if any.
    pub fn set_src(&mut self, e: E, v: V) -> (prev: Option<V>)
        requires
            old(self).wf(),
        ensures
            final(self).wf(),
            prev == old(self)@.src.get(e),
            final(self)@ == (SpecGraph { src: old(self)@.src.insert(e, v), ..old(self)@ }),
    {
        self.src.set(e, v)
    }

    /// Sets the target of an edge, returning the target it had before, if any.
    pub fn set_tgt(&mut self, e: E, v: V) -> (prev: Option<V>)
        requires
            old(self).wf(),
        ensures
            final(self).wf(),
            prev == old(self)@.tgt.get(e),
            final(self)@ == (SpecGraph { tgt: old(self)@.tgt.insert(e, v), ..old(self)@ }),
    {
        self.tgt.set(e, v)
    }

    /// The vertices, in the order of their insertion.
    pub fn vertices(&self) -> (v: Vec<V>)
        ensures
            v@ == self@.vertices,
    {
        self.vertices.to_vec()
    }

    /// The edges, in the order of their insertion.
    pub fn edges(&self) -> (v: Vec<E>)
        ensures
            v@ == self@.edges,
    {
        self.edges.to_vec()
    }

    /// Do both graphs have the same vertices and edges, with the same sources
    /// and targets, whatever the order of their insertion?
    pub fn same_data(&self, other: &Self) -> (b: bool)
        ensures
            self.wf() && other.wf() ==> b == {
                &&& self@.vertices.to_set() == other@.vertices.to_set()
                &&& self@.edges.to_set() == other@.edges.to_set()
                &&& self@.src == other@.src
                &&& self@.tgt == other@.tgt
            },
    {
        self.vertices.same_elements(&other.vertices) && self.edges.same_elements(&other.edges)
            && self.src.same_entries(&other.src) && self.tgt.same_entries(&other.tgt)
    }

    /// Does the edge `e` have a source that is a vertex of the graph?
    pub fn src_ok(&self, e: &E) -> (b: bool)
        requires
            self.wf(),
        ensures
            b == self@.src_ok(*e),
    {
        match self.src.get(e) {
            Some(v) => self.vertices.contains(v),
            None => false,
        }
    }

    /// Does the edge `e` have a target that is a vertex of the graph?
    pub fn tgt_ok(&self, e: &E) -> (b: bool)
        requires
            self.wf(),
        ensures
            b == self@.tgt_ok(*e),
    {
        match self.tgt.get(e) {
            Some(v) => self.vertices.contains(v),
            None => false,
        }
    }

    /// Lists the defects of the graph: the edges whose source is missing or no
    /// vertex, then the edges whose target is missing or no vertex.
    pub fn iter_invalid(&self) -> (errs: Vec<InvalidGraphData<E>>)
        requires
            self.wf(),
        ensures
            errs@ == self@.invalid(),
    {
        let mut errs: Vec<InvalidGraphData<E>> = Vec::new();
        let n = self.edges.len();
        let mut i: usize = 0;
        while i < n
            invariant
                self.wf(),
                n == self@.edges.len(),
                i <= n,
                errs@ == concat_map(self@.edges.take(i as int), self@.src_error()),
            decreases n - i,
        {
            proof {
                lemma_concat_map_step(self@.edges, self@.src_error(), i as int);
            }
            let e = self.edges.get(i);
            if !self.src_ok(e) {
                errs.push(InvalidGraphData::Src(e.duplicate()));
            }
            i += 1;
        }
        assert(self@.edges.take(n as int) == self@.edges);
        let ghost first = errs@;
        let mut i: usize = 0;
        while i < n
            invariant
                self.wf(),
                n == self@.edges.len(),
                i <= n,
                errs@ == first + concat_map(self@.edges.take(i as int), self@.tgt_error()),
            decreases n - i,
        {
            proof {
                lemma_concat_map_step(self@.edges, self@.tgt_error(), i as int);
            }
            let e = self.edges.get(i);
            if !self.tgt_ok(e) {
                errs.push(InvalidGraphData::Tgt(e.duplicate()));
            }
            i += 1;
        }
        assert(self@.edges.take(n as int) == self@.edges);
        errs
    }

    /// Does the edge `e` end where the edge `f` starts?
    pub fn joined(&self, e: &E, f: &E) -> (b: bool)
        requires
            self.wf(),
        ensures
            b == self@.joined(*e, *f),
    {
        match (self.tgt.get(e), self.src.get(f)) {
            (Some(t), Some(s)) => t.same(s),
            _ => false,
        }
    }
}

impl<V: Ident, E: Ident> Path<V, E> {
    /// The vertex at which the path starts, if it is determined: the vertex of
    /// an empty path, or the source of the first edge where it is set.
    pub fn src(&self, graph: &Graph<V, E>) -> (r: Option<V>)
        requires
            graph.wf(),
        ensures
            r == graph@.path_src(self@),
    {
        match self {
            Path::Id(v) => Some(v.duplicate()),
            Path::Edges { head, .. } => match graph.get_src(head) {
                Some(v) => Some(v.duplicate()),
                None => None,
            },
        }
    }

    /// The vertex at which the path ends, if it is determined: the vertex of an
    /// empty path, or the target of the last edge where it is set.
    pub fn tgt(&self, graph: &Graph<V, E>) -> (r: Option<V>)
        requires
            graph.wf(),
        ensures
            r == graph@.path_tgt(self@),
    {
        match self.last() {
            None => match self {
                Path::Id(v) => Some(v.duplicate()),
                Path::Edges { .. } => None,
            },
            Some(e) => match graph.get_tgt(e) {
                Some(v) => Some(v.duplicate()),
                None => None,
            },
        }
    }

    /// Is the path contained in the graph?
    pub fn contained_in(&self, graph: &Graph<V, E>) -> (b: bool)
        requires
            graph.wf(),
        ensures
            b == graph@.contains_path(self@),
    {
        match self {
            Path::Id(v) => graph.has_vertex(v),
            Path::Edges { head, tail } => {
                let ghost es = seq![*head] + tail@;
                assert(self@ == SpecPath::<V, E>::Edges(es));
                if !graph.has_edge(head) {
                    assert(es.len() > 0 && !graph@.has_edge(es[0]));
                    return false;
                }
                let mut prev: &E = head;
                let mut i: usize = 0;
                while i < tail.len()
                    invariant
                        graph.wf(),
                        i <= tail.len(),
                        es == seq![*head] + tail@,
                        self@ == SpecPath::<V, E>::Edges(es),
                        *prev == es[i as int],
                        forall|j: int| 0 <= j <= i ==> graph@.has_edge(#[trigger] es[j]),
                        forall|j: int| 0 <= j < i ==> graph@.joined(#[trigger] es[j], es[j + 1]),
                    decreases tail.len() - i,
                {
                    let cur = &tail[i];
                    assert(*cur == es[i + 1]);
                    if !graph.has_edge(cur) {
                        assert(i + 1 < es.len() && !graph@.has_edge(es[i + 1]));
                        return false;
                    }
                    if !graph.joined(prev, cur) {
                        assert(i < es.len() - 1 && !graph@.joined(es[i as int], es[i + 1]));
                        return false;
                    }
                    prev = cur;
                    i += 1;
                }
                true
            },
        }
    }

    /// The path followed by `other`, if it ends where `other` starts.
    pub fn concat_in(self, graph: &Graph<V, E>, other: Self) -> (r: Option<Self>)
        requires
            graph.wf(),
        ensures
            match r {
                Some(p) => graph@.concat(self@, other@) == Some(p@),
                None => graph@.concat(self@, other@) is None,
            },
    {
        let end = self.tgt(graph);
        let start = other.src(graph);
        match (self, other) {
            (Path::Id(x), Path::Id(y)) => {
                if x.same(&y) {
                    Some(Path::Id(x))
                } else {
                    None
                }
            },
            (Path::Edges { head, tail }, Path::Id(y)) => {
                match end {
                    Some(t) => if t.same(&y) {
                        Some(Path::Edges { head, tail })
                    } else {
                        None
                    },
                    None => None,
                }
            },
            (Path::Id(x), Path::Edges { head, tail }) => {
                match start {
                    Some(s) => if s.same(&x) {
                        Some(Path::Edges { head, tail })
                    } else {
                        None
                    },
                    None => None,
                }
            },
            (Path::Edges { head: h1, tail: t1 }, Path::Edges { head: h2, tail: t2 }) => {
                let ghost a = seq![h1] + t1@;
                let ghost b = seq![h2] + t2@;
                match (end, start) {
                    (Some(t), Some(s)) => {
                        if t.same(&s) {
                            let mut tail = t1;
                            let mut rest = t2;
                            tail.push(h2);
                            tail.append(&mut rest);
                            let p = Path::Edges { head: h1, tail };
                            assert(p@.edges() =~= a + b);
                            Some(p)
                        } else {
                            None
                        }
                    },
                    _ => None,
                }
            },
        }
    }

    /// Joins the pieces of a path of paths end to end, if each piece ends where
    /// the next one starts.
    pub fn flatten_in(pp: &Path<V, Path<V, E>>, graph: &Graph<V, E>) -> (r: Option<Self>)
        requires
            graph.wf(),
        ensures
            match r {
                Some(p) => graph@.flatten_in(nested_view(*pp)) == Some(p@),
                None => graph@.flatten_in(nested_view(*pp)) is None,
            },
    {
        match pp {
            Path::Id(_) => {},
            Path::Edges { head, tail } => {
                let ghost ps = (seq![*head] + tail@).map_values(|p: Path<V, E>| p@);
                assert(nested_view(*pp) == SpecPath::<V, SpecPath<V, E>>::Edges(ps));
                let mut prev: &Path<V, E> = head;
                let mut i: usize = 0;
                while i < tail.len()
                    invariant
                        graph.wf(),
                        i <= tail.len(),
                        ps == (seq![*head] + tail@).map_values(|p: Path<V, E>| p@),
                        nested_view(*pp) == SpecPath::<V, SpecPath<V, E>>::Edges(ps),
                        prev@ == ps[i as int],
                        forall|j: int| 0 <= j < i ==> graph@.meet(#[trigger] ps[j], ps[j + 1]),
                    decreases tail.len() - i,
                {
                    let cur = &tail[i];
                    assert(cur@ == ps[i + 1]);
                    let end = prev.tgt(graph);
                    let start = cur.src(graph);
                    let ok = match (&end, &start) {
                        (Some(t), Some(s)) => t.same(s),
                        _ => false,
                    };
                    if !ok {
                        assert(!graph@.meet(ps[i as int], ps[i + 1]));
                        return None;
                    }
                    prev = cur;
                    i += 1;
                }
            },
        }
        Some(Path::flatten(pp))
    }
}

} // verus!
