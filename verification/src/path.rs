//! Paths: composable sequences of edges, or the empty path at a vertex.

use vstd::prelude::*;
use crate::ident::Ident;

verus! {

/// A path as a mathematical value: the empty path at a vertex, or a sequence of edges.
pub enum SpecPath<V, E> {
    /// The empty path at a vertex.
    Id(V),
    /// A path of at least one edge.
    Edges(Seq<E>),
}

impl<V, E> SpecPath<V, E> {
    /// The edges of the path, in order; none for an empty path.
    pub open spec fn edges(self) -> Seq<E> {
        match self {
            SpecPath::Id(_) => Seq::empty(),
            SpecPath::Edges(es) => es,
        }
    }

    /// The path of the single edge `e`.
    pub open spec fn single(e: E) -> Self {
        SpecPath::Edges(seq![e])
    }

    /// The path of the edge `e` followed by the edge `f`.
    pub open spec fn pair(e: E, f: E) -> Self {
        SpecPath::Edges(seq![e, f])
    }
}

/// The edges of all the paths in `ps`, one path after the other.
pub open spec fn all_edges<V, E>(ps: Seq<SpecPath<V, E>>) -> Seq<E>
    decreases ps.len(),
{
    if ps.len() == 0 {
        Seq::empty()
    } else {
        all_edges(ps.drop_last()) + ps.last().edges()
    }
}

/// The path that a path of paths stands for: its pieces joined end to end.
///
/// Empty pieces contribute nothing. Where every piece is empty, the result is
/// the first of them.
pub open spec fn flatten<V, E>(pp: SpecPath<V, SpecPath<V, E>>) -> SpecPath<V, E> {
    match pp {
        SpecPath::Id(x) => SpecPath::Id(x),
        SpecPath::Edges(ps) => if all_edges(ps).len() == 0 {
            ps[0]
        } else {
            SpecPath::Edges(all_edges(ps))
        },
    }
}

/// Extending a prefix of `ps` by one path appends the edges of that path.
pub proof fn lemma_all_edges_step<V, E>(ps: Seq<SpecPath<V, E>>, i: int)
    requires
        0 <= i < ps.len(),
    ensures
        all_edges(ps.take(i + 1)) == all_edges(ps.take(i)) + ps[i].edges(),
{
    assert(ps.take(i + 1).drop_last() == ps.take(i));
}

/// Where every piece is a single edge, the joined edges are those edges in order.
pub proof fn lemma_all_edges_of_singles<V, E>(es: Seq<E>)
    ensures
        all_edges(es.map_values(|e: E| SpecPath::<V, E>::single(e))) == es,
    decreases es.len(),
{
    let ps = es.map_values(|e: E| SpecPath::<V, E>::single(e));
    if es.len() > 0 {
        lemma_all_edges_of_singles::<V, E>(es.drop_last());
        assert(ps.drop_last() == es.drop_last().map_values(|e: E| SpecPath::<V, E>::single(e)));
        assert(ps.last().edges() == seq![es.last()]);
        assert(es.drop_last() + seq![es.last()] == es);
    } else {
        assert(all_edges(ps) == es);
    }
}

/// Flattening a path whose pieces are single edges gives the path of those
/// edges, element for element.
pub proof fn lemma_flatten_singles<V, E>(es: Seq<E>)
    requires
        es.len() > 0,
    ensures
        flatten(SpecPath::<V, SpecPath<V, E>>::Edges(es.map_values(|e: E| SpecPath::<V, E>::single(e))))
            == SpecPath::<V, E>::Edges(es),
{
    lemma_all_edges_of_singles::<V, E>(es);
}

/// A path in a graph: the empty path at a vertex, or a sequence of at least one edge.
#[derive(Debug, PartialEq, Eq)]
pub enum Path<V, E> {
    /// The empty path at a vertex.
    Id(V),
    /// The path of the edge `head` followed by the edges of `tail`.
    Edges { head: E, tail: Vec<E> },
}

impl<V, E> View for Path<V, E> {
    type V = SpecPath<V, E>;

    open spec fn view(&self) -> SpecPath<V, E> {
        match self {
            Path::Id(v) => SpecPath::Id(*v),
            Path::Edges { head, tail } => SpecPath::Edges(seq![*head] + tail@),
        }
    }
}

/// The view of a path of paths: each piece is replaced by its view.
pub open spec fn nested_view<V, E>(pp: Path<V, Path<V, E>>) -> SpecPath<V, SpecPath<V, E>> {
    match pp@ {
        SpecPath::Id(v) => SpecPath::Id(v),
        SpecPath::Edges(ps) => SpecPath::Edges(ps.map_values(|p: Path<V, E>| p@)),
    }
}

impl<V, E> Path<V, E> {
    /// The empty path at the vertex `v`.
    pub fn empty(v: V) -> (p: Self)
        ensures
            p@ == SpecPath::<V, E>::Id(v),
    {
        Path::Id(v)
    }

    /// The path of the single edge `e`.
    pub fn single(e: E) -> (p: Self)
        ensures
            p@ == SpecPath::<V, E>::single(e),
    {
        let p = Path::Edges { head: e, tail: Vec::new() };
        assert(p@.edges() =~= seq![e]);
        p
    }

    /// The path of the edge `e` followed by the edge `f`.
    pub fn pair(e: E, f: E) -> (p: Self)
        ensures
            p@ == SpecPath::<V, E>::pair(e, f),
    {
        let mut tail: Vec<E> = Vec::new();
        tail.push(f);
        let p = Path::Edges { head: e, tail };
        assert(p@.edges() =~= seq![e, f]);
        p
    }

    /// The path of the given edges, if there is at least one.
    pub fn from_vec(edges: Vec<E>) -> (r: Option<Self>)
        ensures
            match r {
                Some(p) => edges@.len() > 0 && p@ == SpecPath::<V, E>::Edges(edges@),
                None => edges@.len() == 0,
            },
    {
        let mut edges = edges;
        if edges.len() == 0 {
            None
        } else {
            let ghost all = edges@;
            let head = edges.remove(0);
            let p = Path::Edges { head, tail: edges };
            assert(p@.edges() =~= all);
            Some(p)
        }
    }

    /// Is this the empty path at some vertex?
    pub fn is_empty(&self) -> (b: bool)
        ensures
            b == (self@ is Id),
    {
        match self {
            Path::Id(_) => true,
            Path::Edges { .. } => false,
        }
    }

    /// The first edge of the path, if it has one.
    pub fn first(&self) -> (r: Option<&E>)
        ensures
            match r {
                Some(e) => self@ is Edges && *e == self@.edges().first(),
                None => self@ is Id,
            },
    {
        match self {
            Path::Id(_) => None,
            Path::Edges { head, .. } => Some(head),
        }
    }

    /// The last edge of the path, if it has one.
    pub fn last(&self) -> (r: Option<&E>)
        ensures
            match r {
                Some(e) => self@ is Edges && *e == self@.edges().last(),
                None => self@ is Id,
            },
    {
        match self {
            Path::Id(_) => None,
            Path::Edges { head, tail } => {
                if tail.len() == 0 {
                    Some(head)
                } else {
                    Some(&tail[tail.len() - 1])
                }
            },
        }
    }
}

/// Duplicates a vector of identifiers.
pub fn duplicate_vec<T: Ident>(v: &Vec<T>) -> (r: Vec<T>)
    ensures
        r@ == v@,
{
    let mut r: Vec<T> = Vec::new();
    let mut i: usize = 0;
    while i < v.len()
        invariant
            i <= v.len(),
            r@ == v@.take(i as int),
        decreases v.len() - i,
    {
        r.push(v[i].duplicate());
        assert(v@.take(i + 1) == v@.take(i as int).push(v@[i as int]));
        i += 1;
    }
    assert(v@.take(v.len() as int) == v@);
    r
}

/// Compares two vectors of identifiers, element by element.
pub fn same_vec<T: Ident>(a: &Vec<T>, b: &Vec<T>) -> (r: bool)
    ensures
        r == (a@ == b@),
{
    if a.len() != b.len() {
        return false;
    }
    let mut i: usize = 0;
    while i < a.len()
        invariant
            i <= a.len(),
            a.len() == b.len(),
            forall|j: int| 0 <= j < i ==> a@[j] == b@[j],
        decreases a.len() - i,
    {
        if !a[i].same(&b[i]) {
            return false;
        }
        i += 1;
    }
    assert(a@ =~= b@);
    true
}

impl<V: Ident, E: Ident> Path<V, E> {
    /// A second copy of the path.
    pub fn duplicate(&self) -> (p: Self)
        ensures
            p@ == self@,
    {
        match self {
            Path::Id(v) => Path::Id(v.duplicate()),
            Path::Edges { head, tail } => Path::Edges {
                head: head.duplicate(),
                tail: duplicate_vec(tail),
            },
        }
    }

    /// Are the two paths equal: the same vertex, or the same edges in the same order?
    pub fn same(&self, other: &Self) -> (b: bool)
        ensures
            b == (self@ == other@),
    {
        match (self, other) {
            (Path::Id(v), Path::Id(w)) => v.same(w),
            (Path::Edges { head: h1, tail: t1 }, Path::Edges { head: h2, tail: t2 }) => {
                let b = h1.same(h2) && same_vec(t1, t2);
                proof {
                    let s1 = seq![*h1] + t1@;
                    let s2 = seq![*h2] + t2@;
                    if s1 == s2 {
                        assert(s1[0] == s2[0]);
                        assert(t1@ =~= s1.skip(1));
                        assert(t2@ =~= s2.skip(1));
                    }
                }
                b
            },
            _ => false,
        }
    }

    /// Joins the pieces of a path of paths end to end.
    pub fn flatten(pp: &Path<V, Path<V, E>>) -> (p: Self)
        ensures
            p@ == flatten(nested_view(*pp)),
    {
        match pp {
            Path::Id(x) => Path::Id(x.duplicate()),
            Path::Edges { head, tail } => {
                let ghost ps = (seq![*head] + tail@).map_values(|p: Path<V, E>| p@);
                let mut acc: Vec<E> = Vec::new();
                match head {
                    Path::Id(_) => {},
                    Path::Edges { head: h, tail: t } => {
                        acc.push(h.duplicate());
                        let mut rest = duplicate_vec(t);
                        acc.append(&mut rest);
                    },
                }
                proof {
                    lemma_all_edges_step(ps, 0);
                    assert(all_edges(ps.take(0)) =~= Seq::<E>::empty());
                    assert(acc@ =~= all_edges(ps.take(1)));
                }
                let mut i: usize = 0;
                while i < tail.len()
                    invariant
                        i <= tail.len(),
                        ps == (seq![*head] + tail@).map_values(|p: Path<V, E>| p@),
                        acc@ == all_edges(ps.take(i + 1)),
                    decreases tail.len() - i,
                {
                    proof {
                        lemma_all_edges_step(ps, i + 1);
                        assert(ps[i + 1] == tail@[i as int]@);
                    }
                    match &tail[i] {
                        Path::Id(_) => {},
                        Path::Edges { head: h, tail: t } => {
                            acc.push(h.duplicate());
                            let mut rest = duplicate_vec(t);
                            acc.append(&mut rest);
                        },
                    }
                    assert(acc@ =~= all_edges(ps.take(i + 2)));
                    i += 1;
                }
                assert(ps.take(tail.len() + 1) == ps);
                match Path::from_vec(acc) {
                    Some(p) => p,
                    None => {
                        assert(ps[0] == head@);
                        assert(head@.edges().len() == 0) by {
                            lemma_all_edges_step(ps, 0);
                            lemma_all_edges_prefix(ps, 1);
                        }
                        head.duplicate()
                    },
                }
            },
        }
    }
}

/// The edges joined from a prefix of `ps` are a prefix of the edges joined from all of `ps`.
pub proof fn lemma_all_edges_prefix<V, E>(ps: Seq<SpecPath<V, E>>, i: int)
    requires
        0 <= i <= ps.len(),
    ensures
        all_edges(ps.take(i)).len() <= all_edges(ps).len(),
    decreases ps.len() - i,
{
    if i < ps.len() {
        lemma_all_edges_step(ps, i);
        lemma_all_edges_prefix(ps, i + 1);
    } else {
        assert(ps.take(i) == ps);
    }
}

/// An equation between two paths.
#[derive(Debug, PartialEq, Eq)]
pub struct PathEq<V, E> {
    /// Left hand side of the equation.
    pub lhs: Path<V, E>,
    /// Right hand side of the equation.
    pub rhs: Path<V, E>,
}

/// An equation between two paths, as a mathematical value.
pub struct SpecPathEq<V, E> {
    /// Left hand side of the equation.
    pub lhs: SpecPath<V, E>,
    /// Right hand side of the equation.
    pub rhs: SpecPath<V, E>,
}

impl<V, E> View for PathEq<V, E> {
    type V = SpecPathEq<V, E>;

    open spec fn view(&self) -> SpecPathEq<V, E> {
        SpecPathEq { lhs: self.lhs@, rhs: self.rhs@ }
    }
}

impl<V, E> PathEq<V, E> {
    /// The equation `lhs = rhs`.
    pub fn new(lhs: Path<V, E>, rhs: Path<V, E>) -> (eq: Self)
        ensures
            eq@ == (SpecPathEq { lhs: lhs@, rhs: rhs@ }),
    {
        PathEq { lhs, rhs }
    }
}

} // verus!
