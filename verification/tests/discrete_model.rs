use std::sync::Arc;

use catlog::model::{
    DblModel, DiscreteDblModel, FgDblModel, InvalidDiscreteDblModel, UstrDiscreteDblModel,
};
use catlog::path::{Path, PathEq};
use catlog::theory::{
    DblTheory, DiscreteDblTheory, FinMor, UstrDiscreteDblTheory, UstrFinCategory,
};
use ustr::ustr;

/// The theory of database schemas with attributes.
fn th_schema() -> UstrDiscreteDblTheory {
    let mut cat = UstrFinCategory::new();
    let (x, a) = (ustr("Entity"), ustr("AttrType"));
    cat.add_ob_generator(x);
    cat.add_ob_generator(a);
    cat.add_mor_generator(ustr("Attr"), x, a);
    DiscreteDblTheory::from(cat)
}

/// The schema with one entity, one attribute type and one attribute.
fn walking_attr(th: Arc<UstrDiscreteDblTheory>) -> UstrDiscreteDblModel {
    let mut model = UstrDiscreteDblModel::new(th);
    let (entity, attr_type, attr) = (ustr("entity"), ustr("type"), ustr("attr"));
    model.add_ob(entity, ustr("Entity"));
    model.add_ob(attr_type, ustr("AttrType"));
    model.add_mor(attr, entity, attr_type, FinMor::Generator(ustr("Attr")));
    model
}

#[test]
fn validate_discrete_dbl_model() {
    let th = Arc::new(th_schema());
    let mut model = DiscreteDblModel::new(th.clone());
    let entity = ustr("entity");
    model.add_ob(entity, ustr("NotObType"));
    assert_eq!(model.validate().unwrap_err().len(), 1);

    let mut model = DiscreteDblModel::new(th.clone());
    model.add_ob(entity, ustr("Entity"));
    model.add_mor(ustr("map"), entity, entity, FinMor::Generator(ustr("NotMorType")));
    assert_eq!(model.validate().unwrap_err().len(), 1);

    let mut model = DiscreteDblModel::new(th);
    model.add_ob(entity, ustr("Entity"));
    model.add_ob(ustr("type"), ustr("AttrType"));
    model.add_mor(ustr("a"), entity, ustr("type"), FinMor::Generator(ustr("Attr")));
    assert!(model.validate().is_ok());
    model.add_mor(ustr("b"), entity, ustr("type"), FinMor::Id(ustr("Entity")));
    assert_eq!(model.validate().unwrap_err().len(), 1);

    assert!(model.is_free());
    let peq = PathEq::new(Path::single(ustr("a")), Path::single(ustr("b")));
    model.add_equation(ustr("e"), peq);
    assert!(!model.is_free());
}

#[test]
fn infer_discrete_dbl_model() {
    let th = Arc::new(th_schema());
    let mut model = DiscreteDblModel::new(th.clone());
    model.add_mor(ustr("attr"), ustr("entity"), ustr("type"), FinMor::Generator(ustr("Attr")));
    model.infer_missing();
    assert_eq!(model, walking_attr(th));
}

#[test]
fn empty_model_is_valid() {
    let model = UstrDiscreteDblModel::new(Arc::new(th_schema()));
    assert!(model.validate().is_ok());
    assert!(model.iter_invalid().is_empty());
    assert!(model.is_free());
    assert!(model.object_generators().is_empty());
    assert!(model.morphism_generators().is_empty());
}

#[test]
fn unknown_object_type_is_reported_for_the_object() {
    let mut model = UstrDiscreteDblModel::new(Arc::new(th_schema()));
    model.add_ob(ustr("x"), ustr("T1"));
    assert_eq!(model.iter_invalid(), vec![InvalidDiscreteDblModel::ObType(ustr("x"))]);
    let errs = model.validate().unwrap_err();
    assert_eq!(errs.head, InvalidDiscreteDblModel::ObType(ustr("x")));
    assert!(errs.tail.is_empty());
}

#[test]
fn incompatible_morphism_type_is_reported_for_that_morphism_only() {
    let mut model = UstrDiscreteDblModel::new(Arc::new(th_schema()));
    let (x, y) = (ustr("x"), ustr("y"));
    model.add_ob(x, ustr("Entity"));
    model.add_ob(y, ustr("AttrType"));
    model.add_mor(ustr("a"), x, y, FinMor::Generator(ustr("Attr")));
    model.add_mor(ustr("b"), x, y, FinMor::Id(ustr("Entity")));
    assert_eq!(model.iter_invalid(), vec![InvalidDiscreteDblModel::CodType(ustr("b"))]);
}

#[test]
fn readding_an_object_updates_its_type() {
    let mut model = UstrDiscreteDblModel::new(Arc::new(th_schema()));
    let x = ustr("x");
    assert!(model.add_ob(x, ustr("Entity")));
    assert_eq!(model.ob_gen_type(&x), ustr("Entity"));
    assert!(!model.add_ob(x, ustr("AttrType")));
    assert_eq!(model.ob_gen_type(&x), ustr("AttrType"));
    assert_eq!(model.object_generators(), vec![x]);
}

#[test]
fn readding_a_morphism_updates_its_type_and_ends() {
    let mut model = UstrDiscreteDblModel::new(Arc::new(th_schema()));
    let (x, y, f) = (ustr("x"), ustr("y"), ustr("f"));
    assert!(model.add_mor(f, x, y, FinMor::Generator(ustr("Attr"))));
    assert!(!model.add_mor(f, y, x, FinMor::Id(ustr("Entity"))));
    assert_eq!(model.get_dom(&f), Some(&y));
    assert_eq!(model.get_cod(&f), Some(&x));
    assert!(matches!(model.mor_gen_type(&f), FinMor::Id(t) if t == ustr("Entity")));
    assert_eq!(model.morphism_generators(), vec![f]);
}

#[test]
fn made_morphism_has_no_ends_until_they_are_set() {
    let mut model = UstrDiscreteDblModel::new(Arc::new(th_schema()));
    let (x, y, z, f) = (ustr("x"), ustr("y"), ustr("z"), ustr("f"));
    assert!(model.make_mor(f, FinMor::Generator(ustr("Attr"))));
    assert!(!model.make_mor(f, FinMor::Generator(ustr("Attr"))));
    assert_eq!(model.get_dom(&f), None);
    assert_eq!(model.get_cod(&f), None);
    assert_eq!(model.set_dom(f, x), None);
    assert_eq!(model.set_dom(f, y), Some(x));
    assert_eq!(model.set_cod(f, z), None);
    assert_eq!(model.get_dom(&f), Some(&y));
    assert_eq!(model.get_cod(&f), Some(&z));
    assert_eq!(model.morphism_generator_dom(&f), y);
    assert_eq!(model.morphism_generator_cod(&f), z);
}

#[test]
fn dangling_ends_are_reported_before_type_errors() {
    let mut model = UstrDiscreteDblModel::new(Arc::new(th_schema()));
    let (x, y, f, g) = (ustr("x"), ustr("y"), ustr("f"), ustr("g"));
    model.add_ob(x, ustr("Nope"));
    model.add_mor(f, x, y, FinMor::Generator(ustr("Attr")));
    model.make_mor(g, FinMor::Generator(ustr("Unknown")));
    assert_eq!(
        model.iter_invalid(),
        vec![
            InvalidDiscreteDblModel::Dom(g),
            InvalidDiscreteDblModel::Cod(f),
            InvalidDiscreteDblModel::Cod(g),
            InvalidDiscreteDblModel::ObType(x),
            InvalidDiscreteDblModel::DomType(f),
            InvalidDiscreteDblModel::MorType(g),
        ]
    );
    assert_eq!(model.validate().unwrap_err().len(), 6);
}

#[test]
fn equations_are_checked_against_the_generators() {
    let mut model = UstrDiscreteDblModel::new(Arc::new(th_schema()));
    let (x, y) = (ustr("x"), ustr("y"));
    model.add_ob(x, ustr("Entity"));
    model.add_ob(y, ustr("AttrType"));
    model.add_mor(ustr("a"), x, y, FinMor::Generator(ustr("Attr")));
    model.add_mor(ustr("b"), x, y, FinMor::Generator(ustr("Attr")));
    model.add_equation(ustr("ok"), PathEq::new(Path::single(ustr("a")), Path::single(ustr("b"))));
    assert!(model.validate().is_ok());
    model.add_equation(ustr("lhs"), PathEq::new(Path::single(ustr("c")), Path::single(ustr("b"))));
    model.add_equation(ustr("rhs"), PathEq::new(Path::empty(x), Path::pair(ustr("a"), ustr("b"))));
    model.add_equation(ustr("ends"), PathEq::new(Path::empty(y), Path::single(ustr("a"))));
    model.add_equation(ustr("tgt"), PathEq::new(Path::empty(x), Path::single(ustr("a"))));
    assert_eq!(
        model.iter_invalid(),
        vec![
            InvalidDiscreteDblModel::EqLhs(ustr("lhs")),
            InvalidDiscreteDblModel::EqRhs(ustr("rhs")),
            InvalidDiscreteDblModel::EqSrc(ustr("ends")),
            InvalidDiscreteDblModel::EqTgt(ustr("tgt")),
        ]
    );
}

#[test]
fn a_model_stays_non_free_once_an_equation_is_added() {
    let mut model: DiscreteDblModel<u64, DiscreteDblTheory<u64, u64>> =
        DiscreteDblModel::new(Arc::new(DiscreteDblTheory::from(catlog::theory::FinCategory::new())));
    assert!(model.is_free());
    model.add_ob(1, 10);
    model.add_mor(2, 1, 1, FinMor::Id(10));
    assert!(model.is_free());
    model.add_equation(3, PathEq::new(Path::single(2), Path::empty(1)));
    assert!(!model.is_free());
    model.add_ob(4, 10);
    model.make_mor(5, FinMor::Id(10));
    model.set_dom(5, 4);
    model.set_cod(5, 4);
    model.add_equation(3, PathEq::new(Path::single(5), Path::empty(4)));
    model.infer_missing();
    assert!(!model.is_free());
}

#[test]
fn inference_is_idempotent_and_keeps_registered_objects() {
    let th = Arc::new(th_schema());
    let mut model = UstrDiscreteDblModel::new(th.clone());
    let (x, y, z) = (ustr("x"), ustr("y"), ustr("z"));
    model.add_ob(x, ustr("AttrType"));
    model.add_mor(ustr("f"), x, y, FinMor::Generator(ustr("Attr")));
    model.add_mor(ustr("g"), z, y, FinMor::Generator(ustr("Attr")));
    model.make_mor(ustr("h"), FinMor::Generator(ustr("Attr")));
    model.infer_missing();
    assert_eq!(model.object_generators(), vec![x, y, z]);
    assert_eq!(model.ob_gen_type(&x), ustr("AttrType"));
    assert_eq!(model.ob_gen_type(&y), ustr("AttrType"));
    assert_eq!(model.ob_gen_type(&z), ustr("Entity"));
    model.infer_missing();
    assert_eq!(model.object_generators(), vec![x, y, z]);
    assert_eq!(model.ob_gen_type(&x), ustr("AttrType"));
    assert_eq!(model.iter_invalid(), vec![
        InvalidDiscreteDblModel::Dom(ustr("h")),
        InvalidDiscreteDblModel::Cod(ustr("h")),
        InvalidDiscreteDblModel::DomType(ustr("f")),
    ]);
}

#[test]
fn generators_are_found_by_their_type() {
    let model = walking_attr(Arc::new(th_schema()));
    assert_eq!(model.object_generators_with_type(&ustr("Entity")), vec![ustr("entity")]);
    assert_eq!(model.object_generators_with_type(&ustr("AttrType")), vec![ustr("type")]);
    assert!(model.object_generators_with_type(&ustr("Other")).is_empty());
    assert_eq!(
        model.morphism_generators_with_type(&FinMor::Generator(ustr("Attr"))),
        vec![ustr("attr")]
    );
    assert!(model.morphism_generators_with_type(&FinMor::Id(ustr("Entity"))).is_empty());
}

#[test]
fn paths_are_typed_by_composing_the_types_of_their_generators() {
    let model = walking_attr(Arc::new(th_schema()));
    let attr = Path::single(ustr("attr"));
    assert!(model.has_mor(&attr));
    assert_eq!(model.dom(&attr), ustr("entity"));
    assert_eq!(model.cod(&attr), ustr("type"));
    assert!(matches!(model.mor_type(&attr), FinMor::Generator(t) if t == ustr("Attr")));
    assert!(matches!(model.mor_type(&Path::empty(ustr("entity"))), FinMor::Id(t) if t == ustr("Entity")));
    assert_eq!(model.ob_type(&ustr("type")), ustr("AttrType"));
    assert!(!model.has_mor(&Path::pair(ustr("attr"), ustr("attr"))));
    assert!(model.has_ob(&ustr("entity")));
    assert!(!model.has_ob(&ustr("attr")));
}

#[test]
fn identity_operations_leave_objects_and_morphisms_alone() {
    let model = walking_attr(Arc::new(th_schema()));
    assert_eq!(model.ob_act(ustr("entity"), &ustr("Entity")), ustr("entity"));
    let m = model.mor_act(Path::single(ustr("attr")), &FinMor::Id(ustr("Entity")));
    assert!(m.same(&Path::single(ustr("attr"))));
    assert!(Arc::ptr_eq(&model.theory_arc(), &model.theory_arc()));
    assert!(model.theory().has_ob_type(&ustr("Entity")));
}

#[test]
fn composition_joins_paths_end_to_end() {
    let model = walking_attr(Arc::new(th_schema()));
    let (a, b, c) = (ustr("a"), ustr("b"), ustr("c"));
    let path = Path::from_vec(vec![Path::single(a), Path::single(b), Path::single(c)]).unwrap();
    assert!(model.compose(path).same(&Path::from_vec(vec![a, b, c]).unwrap()));
    let path = Path::from_vec(vec![Path::empty(ustr("x")), Path::pair(a, b), Path::empty(ustr("y"))])
        .unwrap();
    assert!(model.compose(path).same(&Path::pair(a, b)));
    let path: Path<_, Path<_, ustr::Ustr>> =
        Path::from_vec(vec![Path::empty(ustr("x")), Path::empty(ustr("y"))]).unwrap();
    assert!(model.compose(path).same(&Path::empty(ustr("x"))));
    assert!(model.compose(Path::empty(ustr("x"))).same(&Path::<_, ustr::Ustr>::empty(ustr("x"))));
}

#[test]
fn models_of_different_theories_differ() {
    let first = walking_attr(Arc::new(th_schema()));
    let second = walking_attr(Arc::new(th_schema()));
    assert!(first != second);
    let th = Arc::new(th_schema());
    let mut third = walking_attr(th.clone());
    assert!(third == walking_attr(th.clone()));
    third.add_ob(ustr("more"), ustr("Entity"));
    assert!(third != walking_attr(th));
    assert_eq!(first.generating_graph().vertices(), vec![ustr("entity"), ustr("type")]);
}

#[test]
fn inference_needs_the_types_of_morphisms_with_missing_ends() {
    let mut model = UstrDiscreteDblModel::new(Arc::new(th_schema()));
    let (x, y) = (ustr("x"), ustr("y"));
    model.add_mor(ustr("f"), x, y, FinMor::Generator(ustr("Unknown")));
    assert!(!model.can_infer_missing());
    assert!(!model.try_infer_missing());
    assert!(model.object_generators().is_empty());
    model.add_ob(x, ustr("Entity"));
    model.add_ob(y, ustr("AttrType"));
    assert!(model.can_infer_missing());
    assert!(model.try_infer_missing());
    assert_eq!(model.object_generators(), vec![x, y]);
    model.add_mor(ustr("g"), x, ustr("z"), FinMor::Generator(ustr("Attr")));
    assert!(model.try_infer_missing());
    assert_eq!(model.object_generators(), vec![x, y, ustr("z")]);
    assert_eq!(model.ob_gen_type(&ustr("z")), ustr("AttrType"));
    assert_eq!(model.iter_invalid(), vec![InvalidDiscreteDblModel::MorType(ustr("f"))]);
}
