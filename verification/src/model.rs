//! Models of discrete double theories.

use std::sync::Arc;
use vstd::prelude::*;
use crate::fp_category::{FpCategory, InvalidFpCategory, SpecFpCategory};
use crate::graph::{Graph, SpecGraph};
use crate::ident::Ident;
use crate::path::{flatten, nested_view, Path, PathEq, SpecPath, SpecPathEq};
use crate::theory::{DblTheory, DiscreteDblTheory};
use crate::validate::{elements, wrap_errors};
use crate::zero::{concat_map, lemma_concat_map_step, Column};
use crate::fp_category::defect_if;

verus! {

/// A model of a double theory.
///
/// A model makes sense only relative to a theory, which it can read but does
/// not own. Its objects and morphisms are typed by the object and morphism
/// types of the theory, and the operations of the theory act on them.
pub trait DblModel {
    /// Objects of the model.
    type Ob;

    /// Morphisms of the model.
    type Mor;

    /// Object types defined in the theory.
    type ObType: Ident;

    /// Morphism types defined in the theory.
    type MorType: Ident;

    /// Operations on objects defined in the theory.
    type ObOp;

    /// Operations on morphisms defined in the theory.
    type MorOp;

    /// The double theory that this is a model of.
    type Theory: DblTheory<
        ObType = Self::ObType,
        MorType = Self::MorType,
        ObOp = Self::ObOp,
        MorOp = Self::MorOp,
    >;

    /// The model's own data is well formed.
    spec fn well_formed(&self) -> bool;

    /// The theory that this is a model of.
    spec fn the_theory(&self) -> Self::Theory;

    /// Does the object have a type: do all generators in it have one?
    spec fn ob_has_type(&self, x: Self::Ob) -> bool;

    /// Does the morphism have a type: do all generators in it have one, and
    /// can the theory compose their types?
    spec fn mor_has_type(&self, m: Self::Mor) -> bool;

    /// The type of an object that has one.
    spec fn type_of_ob(&self, x: Self::Ob) -> Self::ObType;

    /// The type of a morphism that has one.
    spec fn type_of_mor(&self, m: Self::Mor) -> Self::MorType;

    /// Can the operation `f` be applied to the object `x`?
    spec fn ob_act_defined(&self, x: Self::Ob, f: Self::ObOp) -> bool;

    /// Is `r` the result of applying the operation `f` to the object `x`?
    spec fn ob_act_result(&self, x: Self::Ob, f: Self::ObOp, r: Self::Ob) -> bool;

    /// Can the operation `op` be applied to the morphism `m`?
    spec fn mor_act_defined(&self, m: Self::Mor, op: Self::MorOp) -> bool;

    /// Is `r` the result of applying the operation `op` to the morphism `m`?
    spec fn mor_act_result(&self, m: Self::Mor, op: Self::MorOp, r: Self::Mor) -> bool;

    /// The underlying theory that this is a model of.
    fn theory(&self) -> (th: &Self::Theory)
        requires
            self.well_formed(),
        ensures
            *th == self.the_theory(),
            th.wf(),
    ;

    /// Type of object.
    fn ob_type(&self, x: &Self::Ob) -> (t: Self::ObType)
        requires
            self.well_formed(),
            self.ob_has_type(*x),
        ensures
            t == self.type_of_ob(*x),
    ;

    /// Type of morphism.
    fn mor_type(&self, m: &Self::Mor) -> (t: Self::MorType)
        requires
            self.well_formed(),
            self.mor_has_type(*m),
        ensures
            t == self.type_of_mor(*m),
    ;

    /// Acts on an object with an object operation.
    fn ob_act(&self, x: Self::Ob, f: &Self::ObOp) -> (r: Self::Ob)
        requires
            self.well_formed(),
            self.ob_act_defined(x, *f),
        ensures
            self.ob_act_result(x, *f, r),
    ;

    /// Acts on a morphism with a morphism operation.
    fn mor_act(&self, m: Self::Mor, op: &Self::MorOp) -> (r: Self::Mor)
        requires
            self.well_formed(),
            self.mor_act_defined(m, *op),
        ensures
            self.mor_act_result(m, *op, r),
    ;
}

/// A finitely generated model of a double theory.
pub trait FgDblModel: DblModel {
    /// Object generators.
    type ObGen: Ident;

    /// Morphism generators.
    type MorGen: Ident;

    /// The object generators, in the order of their enumeration.
    spec fn ob_gens(&self) -> Seq<Self::ObGen>;

    /// The morphism generators, in the order of their enumeration.
    spec fn mor_gens(&self) -> Seq<Self::MorGen>;

    /// The declared type of an object generator.
    spec fn type_of_ob_gen(&self, x: Self::ObGen) -> Self::ObType;

    /// The declared type of a morphism generator.
    spec fn type_of_mor_gen(&self, f: Self::MorGen) -> Self::MorType;

    /// Lists the object generators.
    fn object_generators(&self) -> (gens: Vec<Self::ObGen>)
        requires
            self.well_formed(),
        ensures
            gens@ == self.ob_gens(),
    ;

    /// Lists the morphism generators.
    fn morphism_generators(&self) -> (gens: Vec<Self::MorGen>)
        requires
            self.well_formed(),
        ensures
            gens@ == self.mor_gens(),
    ;

    /// Type of an object generator.
    fn ob_gen_type(&self, ob: &Self::ObGen) -> (t: Self::ObType)
        requires
            self.well_formed(),
            self.ob_gens().contains(*ob),
        ensures
            t == self.type_of_ob_gen(*ob),
    ;

    /// Type of a morphism generator.
    fn mor_gen_type(&self, mor: &Self::MorGen) -> (t: Self::MorType)
        requires
            self.well_formed(),
            self.mor_gens().contains(*mor),
        ensures
            t == self.type_of_mor_gen(*mor),
    ;

    /// Lists the object generators of a given object type.
    ///
    /// The default goes through all object generators and keeps those of the
    /// given type.
    fn object_generators_with_type(&self, typ: &Self::ObType) -> (gens: Vec<Self::ObGen>)
        requires
            self.well_formed(),
        ensures
            gens@ == self.ob_gens().filter(|x: Self::ObGen| self.type_of_ob_gen(x) == *typ),
    {
        let all = self.object_generators();
        let ghost pred = |x: Self::ObGen| self.type_of_ob_gen(x) == *typ;
        let mut gens: Vec<Self::ObGen> = Vec::new();
        let mut i: usize = 0;
        while i < all.len()
            invariant
                self.well_formed(),
                all@ == self.ob_gens(),
                i <= all.len(),
                pred == (|x: Self::ObGen| self.type_of_ob_gen(x) == *typ),
                gens@ == all@.take(i as int).filter(pred),
            decreases all.len() - i,
        {
            proof {
                reveal(Seq::filter);
                let t = all@.take(i + 1);
                assert(t.drop_last() == all@.take(i as int));
                assert(t.last() == all@[i as int]);
                assert(pred(all@[i as int]) == (self.type_of_ob_gen(all@[i as int]) == *typ));
            }
            if self.ob_gen_type(&all[i]).same(typ) {
                gens.push(all[i].duplicate());
            }
            i += 1;
        }
        proof {
            reveal(Seq::filter);
            assert(all@.take(all.len() as int) == all@);
        }
        gens
    }

    /// Lists the morphism generators of a given morphism type.
    ///
    /// The default goes through all morphism generators and keeps those of
    /// the given type.
    fn morphism_generators_with_type(&self, typ: &Self::MorType) -> (gens: Vec<Self::MorGen>)
        requires
            self.well_formed(),
        ensures
            gens@ == self.mor_gens().filter(|f: Self::MorGen| self.type_of_mor_gen(f) == *typ),
    {
        let all = self.morphism_generators();
        let ghost pred = |f: Self::MorGen| self.type_of_mor_gen(f) == *typ;
        let mut gens: Vec<Self::MorGen> = Vec::new();
        let mut i: usize = 0;
        while i < all.len()
            invariant
                self.well_formed(),
                all@ == self.mor_gens(),
                i <= all.len(),
                pred == (|f: Self::MorGen| self.type_of_mor_gen(f) == *typ),
                gens@ == all@.take(i as int).filter(pred),
            decreases all.len() - i,
        {
            proof {
                reveal(Seq::filter);
                let t = all@.take(i + 1);
                assert(t.drop_last() == all@.take(i as int));
                assert(t.last() == all@[i as int]);
                assert(pred(all@[i as int]) == (self.type_of_mor_gen(all@[i as int]) == *typ));
            }
            if self.mor_gen_type(&all[i]).same(typ) {
                gens.push(all[i].duplicate());
            }
            i += 1;
        }
        proof {
            reveal(Seq::filter);
            assert(all@.take(all.len() as int) == all@);
        }
        gens
    }
}

/// A failure of a model of a discrete double theory to be well defined.
#[derive(Debug, PartialEq, Eq)]
pub enum InvalidDiscreteDblModel<Id> {
    /// Domain of basic morphism is undefined or invalid.
    Dom(Id),
    /// Codomain of basic morphism is missing or invalid.
    Cod(Id),
    /// Basic object has invalid object type.
    ObType(Id),
    /// Basic morphism has invalid morphism type.
    MorType(Id),
    /// Domain of basic morphism has type incompatible with morphism type.
    DomType(Id),
    /// Codomain of basic morphism has type incompatible with morphism type.
    CodType(Id),
    /// Equation has left hand side that is not a well defined path.
    EqLhs(Id),
    /// Equation has right hand side that is not a well defined path.
    EqRhs(Id),
    /// Equation has different sources on left and right hand sides.
    EqSrc(Id),
    /// Equation has different targets on left and right hand sides.
    EqTgt(Id),
}

/// The defect of a model that a defect of its underlying presentation stands for.
pub open spec fn category_error<Id>(err: InvalidFpCategory<Id, Id>) -> InvalidDiscreteDblModel<Id> {
    match err {
        InvalidFpCategory::Dom(e) => InvalidDiscreteDblModel::Dom(e),
        InvalidFpCategory::Cod(e) => InvalidDiscreteDblModel::Cod(e),
        InvalidFpCategory::EqLhs(k) => InvalidDiscreteDblModel::EqLhs(k),
        InvalidFpCategory::EqRhs(k) => InvalidDiscreteDblModel::EqRhs(k),
        InvalidFpCategory::EqSrc(k) => InvalidDiscreteDblModel::EqSrc(k),
        InvalidFpCategory::EqTgt(k) => InvalidDiscreteDblModel::EqTgt(k),
    }
}

/// A model of a discrete double theory as a mathematical value: a finitely
/// presented category with a type for each generator.
#[verifier::reject_recursive_types(Id)]
pub struct SpecDblModel<Id, O, M> {
    /// The underlying presentation: generators, their domains and codomains, and equations.
    pub category: SpecFpCategory<Id, Id, Id>,
    /// The declared object type of each object generator.
    pub ob_types: Map<Id, O>,
    /// The declared morphism type of each morphism generator.
    pub mor_types: Map<Id, M>,
}

impl<Id, O, M> SpecDblModel<Id, O, M> {
    /// The model without generators and equations.
    pub open spec fn empty() -> Self {
        SpecDblModel { category: SpecFpCategory::empty(), ob_types: Map::empty(), mor_types: Map::empty() }
    }

    /// The graph of generators.
    pub open spec fn graph(self) -> SpecGraph<Id, Id> {
        self.category.graph
    }

    /// Is `x` an object generator?
    pub open spec fn has_ob(self, x: Id) -> bool {
        self.graph().has_vertex(x)
    }

    /// Is `e` a morphism generator?
    pub open spec fn has_mor_gen(self, e: Id) -> bool {
        self.graph().has_edge(e)
    }

    /// The model with the same equations and types, and another graph of generators.
    pub open spec fn with_graph(self, graph: SpecGraph<Id, Id>) -> Self {
        SpecDblModel { category: SpecFpCategory { graph, ..self.category }, ..self }
    }

    /// The model after the object `x` was added with type `typ`: a new object
    /// is put last, an object that was there gets the new type.
    pub open spec fn with_ob(self, x: Id, typ: O) -> Self {
        SpecDblModel { ob_types: self.ob_types.insert(x, typ), ..self.with_graph(self.graph().with_vertex(x)) }
    }

    /// The model after the morphism `f` was made with type `typ`, its domain
    /// and codomain left as they were.
    pub open spec fn with_mor_made(self, f: Id, typ: M) -> Self {
        SpecDblModel { mor_types: self.mor_types.insert(f, typ), ..self.with_graph(self.graph().with_edge(f)) }
    }

    /// The model after the morphism `f: dom -> cod` was added with type `typ`.
    pub open spec fn with_mor(self, f: Id, dom: Id, cod: Id, typ: M) -> Self {
        SpecDblModel {
            mor_types: self.mor_types.insert(f, typ),
            ..self.with_graph(
                SpecGraph {
                    src: self.graph().src.insert(f, dom),
                    tgt: self.graph().tgt.insert(f, cod),
                    ..self.graph().with_edge(f)
                },
            )
        }
    }

    /// The model after the domain of `f` was set to `x`.
    pub open spec fn with_dom(self, f: Id, x: Id) -> Self {
        self.with_graph(SpecGraph { src: self.graph().src.insert(f, x), ..self.graph() })
    }

    /// The model after the codomain of `f` was set to `x`.
    pub open spec fn with_cod(self, f: Id, x: Id) -> Self {
        self.with_graph(SpecGraph { tgt: self.graph().tgt.insert(f, x), ..self.graph() })
    }

    /// The model after the equation `eq` was added under `key`.
    pub open spec fn with_equation(self, key: Id, eq: SpecPathEq<Id, Id>) -> Self {
        SpecDblModel { category: self.category.with_equation(key, eq), ..self }
    }

    /// Is the model free: does it have no equations?
    pub open spec fn is_free(self) -> bool {
        self.category.is_free()
    }

    /// Do both models have the same generators, domains, codomains, types and
    /// equations, whatever the order of their insertion?
    pub open spec fn same_data(self, other: Self) -> bool {
        &&& self.category.same_data(other.category)
        &&& self.ob_types == other.ob_types
        &&& self.mor_types == other.mor_types
    }

    /// The path of types that lies over a path of generators.
    pub open spec fn typed_path(self, path: SpecPath<Id, Id>) -> SpecPath<O, M> {
        match path {
            SpecPath::Id(x) => SpecPath::Id(self.ob_types[x]),
            SpecPath::Edges(es) => SpecPath::Edges(es.map_values(|e: Id| self.mor_types[e])),
        }
    }

    /// Does every generator of the path have a declared type?
    pub open spec fn path_typed(self, path: SpecPath<Id, Id>) -> bool {
        match path {
            SpecPath::Id(x) => self.ob_types.contains_key(x),
            SpecPath::Edges(es) => self.all_typed(es),
        }
    }

    /// Does every one of the morphism generators `es` have a declared type?
    pub open spec fn all_typed(self, es: Seq<Id>) -> bool {
        forall|i: int| 0 <= i < es.len() ==> self.mor_types.contains_key(#[trigger] es[i])
    }
}

impl<Id, O, M> SpecDblModel<Id, O, M> {
    /// Is the domain of `e` a registered object whose type differs from the
    /// source type that the theory gives to the type of `e`?
    pub open spec fn dom_mismatch<Th: DblTheory<ObType = O, MorType = M>>(self, th: Th, e: Id) -> bool {
        &&& self.graph().src.contains_key(e)
        &&& self.has_ob(self.graph().src[e])
        &&& self.ob_types[self.graph().src[e]] != th.src_of(self.mor_types[e])
    }

    /// Is the codomain of `e` a registered object whose type differs from the
    /// target type that the theory gives to the type of `e`?
    pub open spec fn cod_mismatch<Th: DblTheory<ObType = O, MorType = M>>(self, th: Th, e: Id) -> bool {
        &&& self.graph().tgt.contains_key(e)
        &&& self.has_ob(self.graph().tgt[e])
        &&& self.ob_types[self.graph().tgt[e]] != th.tgt_of(self.mor_types[e])
    }

    /// For each object generator, its type defect, if it has one.
    pub open spec fn ob_type_errors<Th: DblTheory<ObType = O, MorType = M>>(self, th: Th) -> spec_fn(
        Id,
    ) -> Seq<InvalidDiscreteDblModel<Id>> {
        |x: Id| defect_if(!th.ob_type_known(self.ob_types[x]), InvalidDiscreteDblModel::ObType(x))
    }

    /// For each morphism generator, its type defects: its type is unknown
    /// to the theory, or else the types of its domain and codomain may each
    /// disagree with its type.
    pub open spec fn mor_type_errors<Th: DblTheory<ObType = O, MorType = M>>(self, th: Th) -> spec_fn(
        Id,
    ) -> Seq<InvalidDiscreteDblModel<Id>> {
        |e: Id|
            if th.mor_type_known(self.mor_types[e]) {
                defect_if(self.dom_mismatch(th, e), InvalidDiscreteDblModel::DomType(e)) + defect_if(
                    self.cod_mismatch(th, e),
                    InvalidDiscreteDblModel::CodType(e),
                )
            } else {
                seq![InvalidDiscreteDblModel::MorType(e)]
            }
    }

    /// The defects of the model with respect to the theory `th`: those of the
    /// underlying presentation, then the type defects of the object
    /// generators, then the type defects of the morphism generators.
    pub open spec fn invalid<Th: DblTheory<ObType = O, MorType = M>>(self, th: Th) -> Seq<
        InvalidDiscreteDblModel<Id>,
    > {
        self.category.invalid().map_values(|err: InvalidFpCategory<Id, Id>| category_error(err))
            + concat_map(self.graph().vertices, self.ob_type_errors(th)) + concat_map(
            self.graph().edges,
            self.mor_type_errors(th),
        )
    }
}

impl<Id, O, M> SpecDblModel<Id, O, M> {
    /// The model after an end of a morphism was looked at: where the end is
    /// set and is no object of the model, it is added with type `typ`.
    pub open spec fn infer_endpoint(self, end: Option<Id>, typ: O) -> Self {
        match end {
            Some(x) => if self.has_ob(x) {
                self
            } else {
                self.with_ob(x, typ)
            },
            None => self,
        }
    }

    /// The model after the ends of the morphism generator `e` were looked at:
    /// first its domain, typed by the source of the type of `e`, then its
    /// codomain, typed by the target.
    pub open spec fn infer_edge<Th: DblTheory<ObType = O, MorType = M>>(self, th: Th, e: Id) -> Self {
        let typ = self.mor_types[e];
        let first = self.infer_endpoint(self.graph().src.get(e), th.src_of(typ));
        first.infer_endpoint(first.graph().tgt.get(e), th.tgt_of(typ))
    }

    /// The model after the ends of the first `n` of the morphism generators
    /// `es` were looked at, one generator after the other.
    pub open spec fn infer_upto<Th: DblTheory<ObType = O, MorType = M>>(
        self,
        th: Th,
        es: Seq<Id>,
        n: nat,
    ) -> Self
        decreases n,
    {
        if n == 0 {
            self
        } else {
            self.infer_upto(th, es, (n - 1) as nat).infer_edge(th, es[n - 1])
        }
    }

    /// The model completed by the objects that its morphism generators refer
    /// to and that it lacks.
    pub open spec fn inferred<Th: DblTheory<ObType = O, MorType = M>>(self, th: Th) -> Self {
        self.infer_upto(th, self.graph().edges, self.graph().edges.len())
    }

    /// Does the morphism generator `e` refer to an object that the model lacks?
    pub open spec fn refers_to_missing(self, e: Id) -> bool {
        ||| self.graph().src.contains_key(e) && !self.has_ob(self.graph().src[e])
        ||| self.graph().tgt.contains_key(e) && !self.has_ob(self.graph().tgt[e])
    }

    /// Does the theory know the type of every morphism generator that refers
    /// to an object that the model lacks? Only then can the types of the
    /// missing objects be inferred.
    pub open spec fn can_infer<Th: DblTheory<ObType = O, MorType = M>>(self, th: Th) -> bool {
        forall|i: int|
            0 <= i < self.graph().edges.len() && self.refers_to_missing(
                #[trigger] self.graph().edges[i],
            ) ==> th.mor_type_known(self.mor_types[self.graph().edges[i]])
    }

    /// Are the ends of the morphism generator `e`, as far as they are set,
    /// objects of the model?
    pub open spec fn ends_present(self, e: Id) -> bool {
        !self.refers_to_missing(e)
    }

    /// Does `other` extend the model by objects only: the same morphism
    /// generators, ends, morphism types and equations, and every object of
    /// the model with its type?
    pub open spec fn extended_by_objects(self, other: Self) -> bool {
        &&& other.mor_types == self.mor_types
        &&& other.category.eq_keys == self.category.eq_keys
        &&& other.category.equations == self.category.equations
        &&& other.graph().edges == self.graph().edges
        &&& other.graph().src == self.graph().src
        &&& other.graph().tgt == self.graph().tgt
        &&& self.graph().vertices.is_prefix_of(other.graph().vertices)
        &&& forall|x: Id| #[trigger] self.has_ob(x) ==> other.has_ob(x) && other.ob_types[x] == self.ob_types[x]
    }
}

/// Looking at the ends of a morphism generator adds objects only, and leaves
/// the ends of the generator present.
pub proof fn lemma_infer_edge<Id, O, M, Th: DblTheory<ObType = O, MorType = M>>(
    m: SpecDblModel<Id, O, M>,
    th: Th,
    e: Id,
)
    ensures
        m.extended_by_objects(m.infer_edge(th, e)),
        m.infer_edge(th, e).ends_present(e),
        m.ends_present(e) ==> m.infer_edge(th, e) == m,
{
    let typ = m.mor_types[e];
    let first = m.infer_endpoint(m.graph().src.get(e), th.src_of(typ));
    let second = first.infer_endpoint(first.graph().tgt.get(e), th.tgt_of(typ));
    assert(m.extended_by_objects(first)) by {
        if first != m {
            let x = m.graph().src[e];
            assert(first.graph().vertices == m.graph().vertices.push(x));
            assert forall|y: Id| #[trigger] m.has_ob(y) implies first.has_ob(y) && first.ob_types[y]
                == m.ob_types[y] by {
                let j = choose|j: int| 0 <= j < m.graph().vertices.len() && m.graph().vertices[j] == y;
                assert(first.graph().vertices[j] == y);
            }
        }
    }
    assert(first.extended_by_objects(second)) by {
        if second != first {
            let x = first.graph().tgt[e];
            assert(second.graph().vertices == first.graph().vertices.push(x));
            assert forall|y: Id| #[trigger] first.has_ob(y) implies second.has_ob(y)
                && second.ob_types[y] == first.ob_types[y] by {
                let j = choose|j: int|
                    0 <= j < first.graph().vertices.len() && first.graph().vertices[j] == y;
                assert(second.graph().vertices[j] == y);
            }
        }
    }
    if m.graph().src.contains_key(e) {
        let x = m.graph().src[e];
        if !m.has_ob(x) {
            assert(first.graph().vertices[m.graph().vertices.len() as int] == x);
        }
        assert(first.has_ob(x));
        assert(second.has_ob(x));
    }
    if first.graph().tgt.contains_key(e) {
        let x = first.graph().tgt[e];
        if !first.has_ob(x) {
            assert(second.graph().vertices[first.graph().vertices.len() as int] == x);
        }
        assert(second.has_ob(x));
    }
}

/// Looking at the ends of morphism generators adds objects only, and leaves
/// the ends of the generators that were looked at present.
pub proof fn lemma_infer_upto<Id, O, M, Th: DblTheory<ObType = O, MorType = M>>(
    m: SpecDblModel<Id, O, M>,
    th: Th,
    es: Seq<Id>,
    n: nat,
)
    requires
        n <= es.len(),
    ensures
        m.extended_by_objects(m.infer_upto(th, es, n)),
        forall|j: int| 0 <= j < n ==> m.infer_upto(th, es, n).ends_present(#[trigger] es[j]),
    decreases n,
{
    if n > 0 {
        let prev = m.infer_upto(th, es, (n - 1) as nat);
        let next = prev.infer_edge(th, es[n - 1]);
        lemma_infer_upto(m, th, es, (n - 1) as nat);
        lemma_infer_edge(prev, th, es[n - 1]);
        assert(m.extended_by_objects(next));
        assert forall|j: int| 0 <= j < n implies next.ends_present(#[trigger] es[j]) by {
            if j < n - 1 {
                assert(prev.ends_present(es[j]));
            }
        }
    }
}

/// Where the ends of all of the morphism generators `es` are present, looking
/// at them changes nothing.
pub proof fn lemma_infer_nothing<Id, O, M, Th: DblTheory<ObType = O, MorType = M>>(
    m: SpecDblModel<Id, O, M>,
    th: Th,
    es: Seq<Id>,
    n: nat,
)
    requires
        n <= es.len(),
        forall|j: int| 0 <= j < es.len() ==> m.ends_present(#[trigger] es[j]),
    ensures
        m.infer_upto(th, es, n) == m,
    decreases n,
{
    if n > 0 {
        lemma_infer_nothing(m, th, es, (n - 1) as nat);
        assert(m.ends_present(es[n - 1]));
        lemma_infer_edge(m, th, es[n - 1]);
    }
}

/// Inferring missing objects adds objects only: every generator, end, type
/// and equation that was there stays as it was, and no registered object is
/// overwritten. Afterwards every end of a morphism generator that is set is
/// an object of the model.
pub proof fn lemma_inferred<Id, O, M, Th: DblTheory<ObType = O, MorType = M>>(
    m: SpecDblModel<Id, O, M>,
    th: Th,
)
    ensures
        m.extended_by_objects(m.inferred(th)),
        forall|j: int|
            0 <= j < m.graph().edges.len() ==> m.inferred(th).ends_present(#[trigger] m.graph().edges[j]),
{
    lemma_infer_upto(m, th, m.graph().edges, m.graph().edges.len());
}

/// Inferring missing objects is idempotent: a second inference changes nothing.
pub proof fn lemma_infer_idempotent<Id, O, M, Th: DblTheory<ObType = O, MorType = M>>(
    m: SpecDblModel<Id, O, M>,
    th: Th,
)
    ensures
        m.inferred(th).inferred(th) == m.inferred(th),
{
    let once = m.inferred(th);
    lemma_inferred(m, th);
    lemma_infer_nothing(once, th, once.graph().edges, once.graph().edges.len());
}

/// A model without generators and equations has no defects.
pub proof fn lemma_empty_valid<Id, O, M, Th: DblTheory<ObType = O, MorType = M>>(th: Th)
    ensures
        SpecDblModel::<Id, O, M>::empty().invalid(th) == Seq::<InvalidDiscreteDblModel<Id>>::empty(),
{
    let m = SpecDblModel::<Id, O, M>::empty();
    assert(m.category.graph.invalid() =~= Seq::empty());
    assert(concat_map(m.category.eq_keys, m.category.equation_errors()) =~= Seq::empty());
    assert(m.category.invalid() =~= Seq::empty());
    assert(m.invalid(th) =~= Seq::empty());
}

/// Adding an object that is registered again changes no generator: the
/// object keeps its place and gets the new type, and every other type stays.
pub proof fn lemma_readd_ob<Id, O, M>(m: SpecDblModel<Id, O, M>, x: Id, typ: O)
    requires
        m.has_ob(x),
    ensures
        m.with_ob(x, typ).category == m.category,
        m.with_ob(x, typ).mor_types == m.mor_types,
        m.with_ob(x, typ).ob_types[x] == typ,
        forall|y: Id| y != x && m.ob_types.contains_key(y) ==> #[trigger] m.with_ob(x, typ).ob_types[y]
            == m.ob_types[y],
{
    assert(m.graph().with_vertex(x) == m.graph());
    assert(m.with_graph(m.graph()) == m);
}

/// Adding a morphism that is registered again adds no generator: the
/// morphism keeps its place and gets the new domain, codomain and type, and
/// the other morphisms keep theirs.
pub proof fn lemma_readd_mor<Id, O, M>(m: SpecDblModel<Id, O, M>, f: Id, dom: Id, cod: Id, typ: M)
    requires
        m.has_mor_gen(f),
    ensures
        m.with_mor(f, dom, cod, typ).graph().vertices == m.graph().vertices,
        m.with_mor(f, dom, cod, typ).graph().edges == m.graph().edges,
        m.with_mor(f, dom, cod, typ).ob_types == m.ob_types,
        m.with_mor(f, dom, cod, typ).graph().src[f] == dom,
        m.with_mor(f, dom, cod, typ).graph().tgt[f] == cod,
        m.with_mor(f, dom, cod, typ).mor_types[f] == typ,
        forall|g: Id|
            g != f ==> #[trigger] m.with_mor(f, dom, cod, typ).graph().src.get(g) == m.graph().src.get(g)
                && m.with_mor(f, dom, cod, typ).graph().tgt.get(g) == m.graph().tgt.get(g)
                && m.with_mor(f, dom, cod, typ).mor_types.get(g) == m.mor_types.get(g),
{
}

/// A model is free until an equation is added, and never after: the empty
/// model is free; adding an equation makes a model not free; and adding
/// generators, setting domains and codomains and inferring objects leave a
/// model free if it was, and not free if it was not.
pub proof fn lemma_free_until_equation<Id, O, M, Th: DblTheory<ObType = O, MorType = M>>(
    m: SpecDblModel<Id, O, M>,
    th: Th,
    x: Id,
    y: Id,
    f: Id,
    ob_type: O,
    mor_type: M,
    eq: SpecPathEq<Id, Id>,
)
    requires
        forall|k: Id| m.category.eq_keys.contains(k) <==> #[trigger] m.category.equations.contains_key(k),
    ensures
        SpecDblModel::<Id, O, M>::empty().is_free(),
        !m.with_equation(f, eq).is_free(),
        m.with_ob(x, ob_type).is_free() == m.is_free(),
        m.with_mor(f, x, y, mor_type).is_free() == m.is_free(),
        m.with_mor_made(f, mor_type).is_free() == m.is_free(),
        m.with_dom(f, x).is_free() == m.is_free(),
        m.with_cod(f, x).is_free() == m.is_free(),
        m.inferred(th).is_free() == m.is_free(),
{
    lemma_inferred(m, th);
    if m.category.equations.contains_key(f) {
        assert(m.category.eq_keys.contains(f));
    }
}

/// A finitely presented model of a discrete double theory.
///
/// Since a discrete double theory has only identity operations, such a model
/// is a finite presentation of a category whose generators carry the object
/// and morphism types of the theory.
#[derive(Debug)]
pub struct DiscreteDblModel<Id, Th: DblTheory> {
    theory: Arc<Th>,
    category: FpCategory<Id, Id, Id>,
    ob_types: Column<Id, Th::ObType>,
    mor_types: Column<Id, Th::MorType>,
}

/// A model of a discrete double theory where both theory and model have keys
/// of type `Ustr`.
pub type UstrDiscreteDblModel = DiscreteDblModel<ustr::Ustr, DiscreteDblTheory<ustr::Ustr, ustr::Ustr>>;

impl<Id, Th: DblTheory> View for DiscreteDblModel<Id, Th> {
    type V = SpecDblModel<Id, Th::ObType, Th::MorType>;

    closed spec fn view(&self) -> SpecDblModel<Id, Th::ObType, Th::MorType> {
        SpecDblModel { category: self.category@, ob_types: self.ob_types@, mor_types: self.mor_types@ }
    }
}

/// Makes another pointer to the same shared value, with `Arc::clone`.
///
/// The new pointer points to the allocation of the old one, so it holds the
/// same value.
#[verifier::external_body]
fn share<T>(a: &Arc<T>) -> (r: Arc<T>)
    ensures
        r == *a,
{
    Arc::clone(a)
}

impl<Id: Ident, Th: DblTheory> DiscreteDblModel<Id, Th> {
    /// The theory that this is a model of.
    pub closed spec fn theory_of(&self) -> Th {
        *self.theory
    }

    /// The stored data is well formed: the theory is, the object generators
    /// are exactly the identifiers with an object type, and the morphism
    /// generators exactly those with a morphism type.
    pub closed spec fn wf(&self) -> bool {
        &&& self.theory.wf()
        &&& self.category.wf()
        &&& self.ob_types.wf()
        &&& self.mor_types.wf()
        &&& self.ob_types.keys() == self.category@.graph.vertices
        &&& self.mor_types.keys() == self.category@.graph.edges
    }

    /// In a well-formed model no generator is enumerated twice, and the
    /// generators are exactly the identifiers that have a type.
    pub proof fn lemma_wf(&self)
        requires
            self.wf(),
        ensures
            self.theory_of().wf(),
            self@.graph().vertices.no_duplicates(),
            self@.graph().edges.no_duplicates(),
            forall|x: Id| self@.has_ob(x) <==> #[trigger] self@.ob_types.contains_key(x),
            forall|e: Id| self@.has_mor_gen(e) <==> #[trigger] self@.mor_types.contains_key(e),
    {
        self.category.lemma_wf();
    }

    /// Creates an empty model of the given theory.
    pub fn new(theory: Arc<Th>) -> (model: Self)
        requires
            theory.wf(),
        ensures
            model.wf(),
            model.theory_of() == *theory,
            model@ == SpecDblModel::<Id, Th::ObType, Th::MorType>::empty(),
    {
        DiscreteDblModel {
            theory,
            category: FpCategory::new(),
            ob_types: Column::new(),
            mor_types: Column::new(),
        }
    }

    /// Returns a reference-counting pointer to the theory for this model.
    pub fn theory_arc(&self) -> (th: Arc<Th>)
        ensures
            *th == self.theory_of(),
    {
        share(&self.theory)
    }

    /// Returns the underlying graph of the model.
    pub fn generating_graph(&self) -> (g: &Graph<Id, Id>)
        requires
            self.wf(),
        ensures
            g.wf(),
            g@ == self@.graph(),
    {
        self.category.generators()
    }

    /// Is the model freely generated?
    pub fn is_free(&self) -> (b: bool)
        requires
            self.wf(),
        ensures
            b == self@.is_free(),
    {
        self.category.is_free()
    }

    /// Adds a basic object to the model, returning whether it is new. An
    /// object that was there gets the new type.
    pub fn add_ob(&mut self, x: Id, typ: Th::ObType) -> (fresh: bool)
        requires
            old(self).wf(),
        ensures
            final(self).wf(),
            final(self).theory_of() == old(self).theory_of(),
            fresh == !old(self)@.has_ob(x),
            final(self)@ == old(self)@.with_ob(x, typ),
    {
        self.ob_types.set(x.duplicate(), typ);
        self.category.add_ob_generator(x)
    }

    /// Adds a basic morphism to the model, returning whether it is new. A
    /// morphism that was there gets the new domain, codomain and type.
    pub fn add_mor(&mut self, f: Id, dom: Id, cod: Id, typ: Th::MorType) -> (fresh: bool)
        requires
            old(self).wf(),
        ensures
            final(self).wf(),
            final(self).theory_of() == old(self).theory_of(),
            fresh == !old(self)@.has_mor_gen(f),
            final(self)@ == old(self)@.with_mor(f, dom, cod, typ),
    {
        self.mor_types.set(f.duplicate(), typ);
        self.category.add_mor_generator(f, dom, cod)
    }

    /// Adds an equation to the model, making it not free.
    pub fn add_equation(&mut self, key: Id, eq: PathEq<Id, Id>)
        requires
            old(self).wf(),
        ensures
            final(self).wf(),
            final(self).theory_of() == old(self).theory_of(),
            final(self)@ == old(self)@.with_equation(key, eq@),
            !final(self)@.is_free(),
    {
        self.category.add_equation(key, eq);
    }

    /// Adds a basic morphism to the model without setting its (co)domain,
    /// returning whether it is new.
    pub fn make_mor(&mut self, f: Id, typ: Th::MorType) -> (fresh: bool)
        requires
            old(self).wf(),
        ensures
            final(self).wf(),
            final(self).theory_of() == old(self).theory_of(),
            fresh == !old(self)@.has_mor_gen(f),
            final(self)@ == old(self)@.with_mor_made(f, typ),
    {
        self.mor_types.set(f.duplicate(), typ);
        self.category.make_mor_generator(f)
    }

    /// Gets the domain of a basic morphism, if it is set.
    pub fn get_dom(&self, f: &Id) -> (r: Option<&Id>)
        requires
            self.wf(),
        ensures
            match r {
                Some(x) => self@.graph().src.get(*f) == Some(*x),
                None => self@.graph().src.get(*f) is None,
            },
    {
        self.category.get_dom(f)
    }

    /// Gets the codomain of a basic morphism, if it is set.
    pub fn get_cod(&self, f: &Id) -> (r: Option<&Id>)
        requires
            self.wf(),
        ensures
            match r {
                Some(x) => self@.graph().tgt.get(*f) == Some(*x),
                None => self@.graph().tgt.get(*f) is None,
            },
    {
        self.category.get_cod(f)
    }

    /// Sets the domain of a basic morphism, returning the one it had before, if any.
    pub fn set_dom(&mut self, f: Id, x: Id) -> (prev: Option<Id>)
        requires
            old(self).wf(),
        ensures
            final(self).wf(),
            final(self).theory_of() == old(self).theory_of(),
            prev == old(self)@.graph().src.get(f),
            final(self)@ == old(self)@.with_dom(f, x),
    {
        self.category.set_dom(f, x)
    }

    /// Sets the codomain of a basic morphism, returning the one it had before, if any.
    pub fn set_cod(&mut self, f: Id, x: Id) -> (prev: Option<Id>)
        requires
            old(self).wf(),
        ensures
            final(self).wf(),
            final(self).theory_of() == old(self).theory_of(),
            prev == old(self)@.graph().tgt.get(f),
            final(self)@ == old(self)@.with_cod(f, x),
    {
        self.category.set_cod(f, x)
    }
}

/// Do the two pointers point to the same allocation? Asked with `Arc::ptr_eq`.
///
/// Pointers to the same allocation hold the same value. Pointers to
/// different allocations may hold equal values, so nothing follows from a
/// negative answer.
#[verifier::external_body]
pub(crate) fn same_allocation<T>(a: &Arc<T>, b: &Arc<T>) -> (r: bool)
    ensures
        r ==> *a == *b,
{
    Arc::ptr_eq(a, b)
}

impl<Id: Ident, Th: DblTheory> DiscreteDblModel<Id, Th> {
    /// Do both models hold the same generators, domains, codomains, types and
    /// equations, whatever the order of their insertion?
    pub fn same_data(&self, other: &Self) -> (b: bool)
        ensures
            self.wf() && other.wf() ==> b == self@.same_data(other@),
    {
        self.category.same_presentation(&other.category) && self.ob_types.same_entries(
            &other.ob_types,
        ) && self.mor_types.same_entries(&other.mor_types)
    }

    /// Are both models equal, given whether they share their theory? They
    /// are if they share it and hold the same data.
    pub fn same_model_if(&self, other: &Self, shared: bool) -> (b: bool)
        ensures
            self.wf() && other.wf() ==> b == (shared && self@.same_data(other@)),
    {
        shared && self.same_data(other)
    }

    /// Are both models bound to the same shared theory, and do they hold the
    /// same data?
    ///
    /// Models are bound to the same theory if they share it: theories that
    /// are held apart count as different, also where they are equal.
    pub fn same_model(&self, other: &Self) -> (b: bool)
        ensures
            self.wf() && other.wf() && b ==> self.theory_of() == other.theory_of() && self@.same_data(
                other@,
            ),
    {
        let shared = same_allocation(&self.theory, &other.theory);
        self.same_model_if(other, shared)
    }

    /// Is `x` an object of the model?
    pub fn has_ob(&self, x: &Id) -> (b: bool)
        requires
            self.wf(),
        ensures
            b == self@.has_ob(*x),
    {
        self.category.has_ob(x)
    }

    /// Is the path a morphism of the model?
    pub fn has_mor(&self, m: &Path<Id, Id>) -> (b: bool)
        requires
            self.wf(),
        ensures
            b == self@.graph().contains_path(m@),
    {
        self.category.has_mor(m)
    }

    /// The domain of a morphism whose source is determined.
    pub fn dom(&self, m: &Path<Id, Id>) -> (x: Id)
        requires
            self.wf(),
            self@.graph().path_src(m@) is Some,
        ensures
            Some(x) == self@.graph().path_src(m@),
    {
        self.category.dom(m)
    }

    /// The codomain of a morphism whose target is determined.
    pub fn cod(&self, m: &Path<Id, Id>) -> (x: Id)
        requires
            self.wf(),
            self@.graph().path_tgt(m@) is Some,
        ensures
            Some(x) == self@.graph().path_tgt(m@),
    {
        self.category.cod(m)
    }

    /// The composite of a path of morphisms: its pieces joined end to end.
    pub fn compose(&self, path: Path<Id, Path<Id, Id>>) -> (m: Path<Id, Id>)
        ensures
            m@ == flatten(nested_view(path)),
    {
        self.category.compose(path)
    }

    /// The domain of a morphism generator whose domain is set.
    pub fn morphism_generator_dom(&self, f: &Id) -> (x: Id)
        requires
            self.wf(),
            self@.graph().src.contains_key(*f),
        ensures
            x == self@.graph().src[*f],
    {
        self.category.get_dom(f).unwrap().duplicate()
    }

    /// The codomain of a morphism generator whose codomain is set.
    pub fn morphism_generator_cod(&self, f: &Id) -> (x: Id)
        requires
            self.wf(),
            self@.graph().tgt.contains_key(*f),
        ensures
            x == self@.graph().tgt[*f],
    {
        self.category.get_cod(f).unwrap().duplicate()
    }

    /// Lists the failures of the model to be well defined.
    ///
    /// First come the defects of the underlying presentation. Then each
    /// object generator is reported whose type the theory does not know. Then
    /// the morphism generators are gone through: one whose type the theory
    /// does not know is reported for that alone; of any other, the domain is
    /// reported if it is a registered object whose type is not the source of
    /// the morphism's type, and the codomain likewise.
    pub fn iter_invalid(&self) -> (errs: Vec<InvalidDiscreteDblModel<Id>>)
        requires
            self.wf(),
        ensures
            errs@ == self@.invalid(self.theory_of()),
    {
        let ghost th = self.theory_of();
        let mut errs: Vec<InvalidDiscreteDblModel<Id>> = Vec::new();
        let cat_errs = self.category.iter_invalid();
        let mut i: usize = 0;
        while i < cat_errs.len()
            invariant
                i <= cat_errs.len(),
                errs@ == cat_errs@.take(i as int).map_values(
                    |err: InvalidFpCategory<Id, Id>| category_error(err),
                ),
            decreases cat_errs.len() - i,
        {
            let converted = match &cat_errs[i] {
                InvalidFpCategory::Dom(e) => InvalidDiscreteDblModel::Dom(e.duplicate()),
                InvalidFpCategory::Cod(e) => InvalidDiscreteDblModel::Cod(e.duplicate()),
                InvalidFpCategory::EqLhs(k) => InvalidDiscreteDblModel::EqLhs(k.duplicate()),
                InvalidFpCategory::EqRhs(k) => InvalidDiscreteDblModel::EqRhs(k.duplicate()),
                InvalidFpCategory::EqSrc(k) => InvalidDiscreteDblModel::EqSrc(k.duplicate()),
                InvalidFpCategory::EqTgt(k) => InvalidDiscreteDblModel::EqTgt(k.duplicate()),
            };
            errs.push(converted);
            assert(cat_errs@.take(i + 1) == cat_errs@.take(i as int).push(cat_errs@[i as int]));
            assert(errs@ =~= cat_errs@.take(i + 1).map_values(
                |err: InvalidFpCategory<Id, Id>| category_error(err),
            ));
            i += 1;
        }
        assert(cat_errs@.take(cat_errs.len() as int) == cat_errs@);
        let ghost first = errs@;
        let obs = self.object_generators();
        let mut i: usize = 0;
        while i < obs.len()
            invariant
                self.wf(),
                th == self.theory_of(),
                obs@ == self@.graph().vertices,
                i <= obs.len(),
                errs@ == first + concat_map(obs@.take(i as int), self@.ob_type_errors(th)),
            decreases obs.len() - i,
        {
            proof {
                lemma_concat_map_step(obs@, self@.ob_type_errors(th), i as int);
                self.lemma_wf();
            }
            let x = &obs[i];
            if !self.theory.has_ob_type(&self.ob_type(x)) {
                errs.push(InvalidDiscreteDblModel::ObType(x.duplicate()));
            }
            i += 1;
        }
        assert(obs@.take(obs.len() as int) == obs@);
        let ghost second = errs@;
        let mors = self.morphism_generators();
        let mut i: usize = 0;
        while i < mors.len()
            invariant
                self.wf(),
                th == self.theory_of(),
                mors@ == self@.graph().edges,
                i <= mors.len(),
                errs@ == second + concat_map(mors@.take(i as int), self@.mor_type_errors(th)),
            decreases mors.len() - i,
        {
            proof {
                lemma_concat_map_step(mors@, self@.mor_type_errors(th), i as int);
                self.lemma_wf();
            }
            let e = &mors[i];
            let mor_type = self.mor_gen_type(e);
            if self.theory.has_mor_type(&mor_type) {
                let dom_bad = match self.category.get_dom(e) {
                    Some(x) => self.has_ob(x) && !self.ob_type(x).same(&self.theory.src(&mor_type)),
                    None => false,
                };
                if dom_bad {
                    errs.push(InvalidDiscreteDblModel::DomType(e.duplicate()));
                }
                let cod_bad = match self.category.get_cod(e) {
                    Some(x) => self.has_ob(x) && !self.ob_type(x).same(&self.theory.tgt(&mor_type)),
                    None => false,
                };
                if cod_bad {
                    errs.push(InvalidDiscreteDblModel::CodType(e.duplicate()));
                }
            } else {
                errs.push(InvalidDiscreteDblModel::MorType(e.duplicate()));
            }
            assert(errs@ =~= second + concat_map(mors@.take(i + 1), self@.mor_type_errors(th)));
            i += 1;
        }
        assert(mors@.take(mors.len() as int) == mors@);
        errs
    }

    /// Validates the model: succeeds if it has no defects, and fails with the
    /// list of all of them otherwise.
    pub fn validate(&self) -> (r: Result<(), nonempty::NonEmpty<InvalidDiscreteDblModel<Id>>>)
        requires
            self.wf(),
        ensures
            match r {
                Ok(_) => self@.invalid(self.theory_of()).len() == 0,
                Err(errs) => self@.invalid(self.theory_of()).len() > 0 && elements(errs)
                    == self@.invalid(self.theory_of()),
            },
    {
        wrap_errors(self.iter_invalid())
    }

    /// Can missing objects be inferred: does the theory know the type of
    /// every morphism generator that refers to an object which the model lacks?
    pub fn can_infer_missing(&self) -> (b: bool)
        requires
            self.wf(),
        ensures
            b == self@.can_infer(self.theory_of()),
    {
        let ghost th = self.theory_of();
        let edges = self.morphism_generators();
        let mut i: usize = 0;
        while i < edges.len()
            invariant
                self.wf(),
                th == self.theory_of(),
                edges@ == self@.graph().edges,
                i <= edges.len(),
                forall|j: int|
                    0 <= j < i && self@.refers_to_missing(#[trigger] edges@[j]) ==> th.mor_type_known(
                        self@.mor_types[edges@[j]],
                    ),
            decreases edges.len() - i,
        {
            let e = &edges[i];
            let dom_missing = match self.get_dom(e) {
                Some(x) => !self.has_ob(x),
                None => false,
            };
            let cod_missing = match self.get_cod(e) {
                Some(x) => !self.has_ob(x),
                None => false,
            };
            if (dom_missing || cod_missing) && !self.theory.has_mor_type(&self.mor_gen_type(e)) {
                assert(self@.refers_to_missing(self@.graph().edges[i as int]));
                return false;
            }
            i += 1;
        }
        true
    }

    /// Infers missing data in the model if that is possible, and says
    /// whether it was. Where it is not, the model stays as it is.
    pub fn try_infer_missing(&mut self) -> (done: bool)
        requires
            old(self).wf(),
        ensures
            final(self).wf(),
            final(self).theory_of() == old(self).theory_of(),
            done == old(self)@.can_infer(old(self).theory_of()),
            final(self)@ == if done {
                old(self)@.inferred(old(self).theory_of())
            } else {
                old(self)@
            },
    {
        if self.can_infer_missing() {
            self.infer_missing();
            true
        } else {
            false
        }
    }

    /// Infer missing data in the model, where possible.
    ///
    /// Objects used in the domain or codomain of morphisms, but not contained
    /// as objects of the model, are added and their types are inferred from
    /// the types of the morphisms. It is not always possible to do this
    /// consistently, so it is important to `validate` the model even after
    /// calling this method.
    pub fn infer_missing(&mut self)
        requires
            old(self).wf(),
            old(self)@.can_infer(old(self).theory_of()),
        ensures
            final(self).wf(),
            final(self).theory_of() == old(self).theory_of(),
            final(self)@ == old(self)@.inferred(old(self).theory_of()),
            old(self)@.extended_by_objects(final(self)@),
    {
        let ghost m0 = self@;
        let ghost th = self.theory_of();
        let edges = self.morphism_generators();
        let mut i: usize = 0;
        while i < edges.len()
            invariant
                self.wf(),
                self.theory_of() == th,
                edges@ == m0.graph().edges,
                m0.can_infer(th),
                i <= edges.len(),
                self@ == m0.infer_upto(th, edges@, i as nat),
            decreases edges.len() - i,
        {
            let e = &edges[i];
            let ghost before = self@;
            proof {
                lemma_infer_upto(m0, th, edges@, i as nat);
                self.lemma_wf();
                assert(m0.has_mor_gen(edges@[i as int]));
            }
            let dom = match self.get_dom(e) {
                Some(x) => Some(x.duplicate()),
                None => None,
            };
            match dom {
                Some(x) => {
                    if !self.has_ob(&x) {
                        let ob_type = self.theory.src(&self.mor_gen_type(e));
                        self.add_ob(x, ob_type);
                    }
                },
                None => {},
            }
            let ghost middle = self@;
            assert(middle == before.infer_endpoint(
                before.graph().src.get(*e),
                th.src_of(before.mor_types[*e]),
            ));
            let cod = match self.get_cod(e) {
                Some(x) => Some(x.duplicate()),
                None => None,
            };
            match cod {
                Some(x) => {
                    if !self.has_ob(&x) {
                        proof {
                            self.lemma_wf();
                        }
                        let ob_type = self.theory.tgt(&self.mor_gen_type(e));
                        self.add_ob(x, ob_type);
                    }
                },
                None => {},
            }
            assert(self@ == before.infer_edge(th, *e));
            i += 1;
        }
        proof {
            lemma_inferred(m0, th);
        }
    }
}

impl<Id: Ident, Th: DblTheory> DblModel for DiscreteDblModel<Id, Th> {
    type Ob = Id;

    type Mor = Path<Id, Id>;

    type ObType = Th::ObType;

    type MorType = Th::MorType;

    type ObOp = Th::ObOp;

    type MorOp = Th::MorOp;

    type Theory = Th;

    open spec fn well_formed(&self) -> bool {
        self.wf()
    }

    open spec fn the_theory(&self) -> Th {
        self.theory_of()
    }

    open spec fn ob_has_type(&self, x: Id) -> bool {
        self@.ob_types.contains_key(x)
    }

    open spec fn mor_has_type(&self, m: Path<Id, Id>) -> bool {
        &&& self@.path_typed(m@)
        &&& self.theory_of().composite(self@.typed_path(m@)) is Some
    }

    open spec fn type_of_ob(&self, x: Id) -> Th::ObType {
        self@.ob_types[x]
    }

    open spec fn type_of_mor(&self, m: Path<Id, Id>) -> Th::MorType {
        self.theory_of().composite(self@.typed_path(m@)).unwrap()
    }

    open spec fn ob_act_defined(&self, x: Id, f: Th::ObOp) -> bool {
        true
    }

    open spec fn ob_act_result(&self, x: Id, f: Th::ObOp, r: Id) -> bool {
        r == x
    }

    open spec fn mor_act_defined(&self, m: Path<Id, Id>, op: Th::MorOp) -> bool {
        true
    }

    open spec fn mor_act_result(&self, m: Path<Id, Id>, op: Th::MorOp, r: Path<Id, Id>) -> bool {
        r == m
    }

    fn theory(&self) -> (th: &Th) {
        &self.theory
    }

    fn ob_type(&self, x: &Id) -> (t: Th::ObType) {
        self.ob_types.get(x).unwrap().duplicate()
    }

    fn mor_type(&self, m: &Path<Id, Id>) -> (t: Th::MorType) {
        let types: Path<Th::ObType, Th::MorType> = match m {
            Path::Id(x) => Path::Id(self.ob_types.get(x).unwrap().duplicate()),
            Path::Edges { head, tail } => {
                let ghost es = seq![*head] + tail@;
                assert(self@.mor_types.contains_key(es[0]));
                let first = self.mor_types.get(head).unwrap().duplicate();
                let mut rest: Vec<Th::MorType> = Vec::new();
                let mut i: usize = 0;
                while i < tail.len()
                    invariant
                        self.wf(),
                        i <= tail.len(),
                        es == seq![*head] + tail@,
                        self@.all_typed(es),
                        rest@ == tail@.take(i as int).map_values(|e: Id| self@.mor_types[e]),
                    decreases tail.len() - i,
                {
                    assert(self@.mor_types.contains_key(es[i + 1]));
                    rest.push(self.mor_types.get(&tail[i]).unwrap().duplicate());
                    assert(tail@.take(i + 1) == tail@.take(i as int).push(tail@[i as int]));
                    assert(rest@ =~= tail@.take(i + 1).map_values(|e: Id| self@.mor_types[e]));
                    i += 1;
                }
                assert(tail@.take(tail.len() as int) == tail@);
                let types = Path::Edges { head: first, tail: rest };
                assert(types@.edges() =~= es.map_values(|e: Id| self@.mor_types[e]));
                types
            },
        };
        self.theory.compose_types(types)
    }

    fn ob_act(&self, x: Id, f: &Th::ObOp) -> (r: Id) {
        x
    }

    fn mor_act(&self, m: Path<Id, Id>, op: &Th::MorOp) -> (r: Path<Id, Id>) {
        m
    }
}

impl<Id: Ident, Th: DblTheory> FgDblModel for DiscreteDblModel<Id, Th> {
    type ObGen = Id;

    type MorGen = Id;

    open spec fn ob_gens(&self) -> Seq<Id> {
        self@.graph().vertices
    }

    open spec fn mor_gens(&self) -> Seq<Id> {
        self@.graph().edges
    }

    open spec fn type_of_ob_gen(&self, x: Id) -> Th::ObType {
        self@.ob_types[x]
    }

    open spec fn type_of_mor_gen(&self, f: Id) -> Th::MorType {
        self@.mor_types[f]
    }

    fn object_generators(&self) -> (gens: Vec<Id>) {
        self.category.object_generators()
    }

    fn morphism_generators(&self) -> (gens: Vec<Id>) {
        self.category.morphism_generators()
    }

    fn ob_gen_type(&self, ob: &Id) -> (t: Th::ObType) {
        proof {
            self.lemma_wf();
        }
        self.ob_types.get(ob).unwrap().duplicate()
    }

    fn mor_gen_type(&self, mor: &Id) -> (t: Th::MorType) {
        proof {
            self.lemma_wf();
        }
        self.mor_types.get(mor).unwrap().duplicate()
    }

    fn object_generators_with_type(&self, typ: &Th::ObType) -> (gens: Vec<Id>) {
        let gens = self.ob_types.preimage(typ);
        proof {
            let f = |k: Id| self.ob_types@[k] == *typ;
            let g = |x: Id| self.type_of_ob_gen(x) == *typ;
            assert(f =~= g);
        }
        gens
    }

    fn morphism_generators_with_type(&self, typ: &Th::MorType) -> (gens: Vec<Id>) {
        let gens = self.mor_types.preimage(typ);
        proof {
            let f = |k: Id| self.mor_types@[k] == *typ;
            let g = |f: Id| self.type_of_mor_gen(f) == *typ;
            assert(f =~= g);
        }
        gens
    }
}

} // verus!
