use std::sync::Arc;

use catlog::model::{DblModel, FgDblModel};
use catlog::path::Path;
use catlog::tab_model::{
    same_mor, same_ob, DiscreteTabModel, TabEdge, TabMor, TabOb, UstrDiscreteTabModel,
};
use catlog::tab_theory::{
    DiscreteTabTheory, TabMorOp, TabMorType, TabObOp, TabObType, UstrDiscreteTabTheory,
};
use catlog::theory::DblTheory;
use ustr::{ustr, Ustr};

type Ob = TabOb<Ustr, Ustr>;
type Edge = TabEdge<Ustr, Ustr>;
type Mor = TabMor<Ustr, Ustr>;

fn object_type() -> TabObType<Ustr, Ustr> {
    TabObType::Basic(ustr("Object"))
}

fn hom_type() -> TabMorType<Ustr, Ustr> {
    TabMorType::Hom(Box::new(object_type()))
}

/// The theory of categories with links: one object type, and a morphism type
/// from it to the tabulator of its hom type.
fn th_category_links() -> UstrDiscreteTabTheory {
    let mut th = UstrDiscreteTabTheory::new();
    th.add_ob_type(ustr("Object"));
    th.add_mor_type(
        ustr("Link"),
        object_type(),
        TabObType::Tabulator(Box::new(hom_type())),
    );
    th
}

fn basic(name: &str) -> Edge {
    TabEdge::Basic(ustr(name))
}

fn ob(name: &str) -> Ob {
    TabOb::Basic(ustr(name))
}

fn path(names: &[&str]) -> Mor {
    Path::from_vec(names.iter().map(|n| basic(n)).collect()).unwrap()
}

/// Objects a, b, c with morphisms f, f2: a -> b and g: b -> c and h: a -> a.
fn chain() -> UstrDiscreteTabModel {
    let mut model = UstrDiscreteTabModel::new(Arc::new(th_category_links()));
    for name in ["a", "b", "c"] {
        assert!(model.add_ob(ustr(name), object_type()));
    }
    assert!(model.add_mor(ustr("f"), ob("a"), ob("b"), hom_type()));
    assert!(model.add_mor(ustr("f2"), ob("a"), ob("b"), hom_type()));
    assert!(model.add_mor(ustr("g"), ob("b"), ob("c"), hom_type()));
    assert!(model.add_mor(ustr("h"), ob("a"), ob("a"), hom_type()));
    model
}

fn square(dom: Mor, cod: Mor, pre: Edge, post: Edge) -> Edge {
    TabEdge::Square {
        dom: Box::new(dom),
        cod: Box::new(cod),
        pre: Box::new(pre),
        post: Box::new(post),
    }
}

#[test]
fn empty_tabulator_model_has_no_generators() {
    let model = UstrDiscreteTabModel::new(Arc::new(th_category_links()));
    assert!(model.object_generators().is_empty());
    assert!(model.morphism_generators().is_empty());
    assert!(!model.has_ob(&ob("a")));
    assert!(!model.has_mor(&path(&["f"])));
}

#[test]
fn basic_generators_exist_once_registered() {
    let model = chain();
    assert_eq!(model.object_generators(), vec![ustr("a"), ustr("b"), ustr("c")]);
    assert_eq!(model.morphism_generators(), vec![ustr("f"), ustr("f2"), ustr("g"), ustr("h")]);
    assert!(model.has_ob(&ob("a")));
    assert!(!model.has_ob(&ob("d")));
    assert!(model.has_mor(&path(&["f"])));
    assert!(model.has_mor(&path(&["f", "g"])));
    assert!(model.has_mor(&path(&["h", "h", "f2", "g"])));
    assert!(!model.has_mor(&path(&["g", "f"])));
    assert!(!model.has_mor(&path(&["f", "k"])));
    assert!(model.has_mor(&Path::empty(ob("c"))));
    assert!(!model.has_mor(&Path::empty(ob("d"))));
    assert!(same_ob(&model.dom(&path(&["f", "g"])), &ob("a")));
    assert!(same_ob(&model.cod(&path(&["f", "g"])), &ob("c")));
    assert!(same_ob(&model.dom(&Path::empty(ob("b"))), &ob("b")));
    assert!(same_ob(&model.morphism_generator_dom(&ustr("g")), &ob("b")));
    assert!(same_ob(&model.morphism_generator_cod(&ustr("g")), &ob("c")));
}

#[test]
fn readding_generators_overwrites_and_is_not_new() {
    let mut model = chain();
    assert!(!model.add_ob(ustr("a"), TabObType::Basic(ustr("Other"))));
    assert_eq!(model.ob_gen_type(&ustr("a")), TabObType::Basic(ustr("Other")));
    assert_eq!(model.ob_gen_type(&ustr("b")), object_type());
    assert!(!model.add_mor(ustr("f"), ob("c"), ob("a"), TabMorType::Basic(ustr("Link"))));
    assert_eq!(model.mor_gen_type(&ustr("f")), TabMorType::Basic(ustr("Link")));
    assert!(same_ob(&model.morphism_generator_dom(&ustr("f")), &ob("c")));
    assert!(same_ob(&model.morphism_generator_cod(&ustr("f")), &ob("a")));
    assert_eq!(model.object_generators().len(), 3);
    assert_eq!(model.morphism_generators().len(), 4);
}

#[test]
fn tabulated_objects_exist_with_their_morphisms() {
    let model = chain();
    let tab_f = model.tabulated_gen(ustr("f"));
    assert!(same_ob(&tab_f, &TabOb::Tabulated(Box::new(path(&["f"])))));
    assert!(model.has_ob(&tab_f));
    assert!(!model.has_ob(&model.tabulated_gen(ustr("k"))));
    assert!(model.has_ob(&model.tabulated(path(&["f", "g"]))));
    assert!(!model.has_ob(&model.tabulated(path(&["g", "f"]))));
    assert!(model.has_ob(&model.tabulated(Path::empty(model.tabulated_gen(ustr("g"))))));
    assert!(!model.has_ob(&model.tabulated(Path::empty(ob("d")))));
    let from_id: Ob = ustr("a").into();
    assert!(same_ob(&from_id, &ob("a")));
    let from_gen: Mor = ustr("f").into();
    assert!(same_mor(&from_gen, &path(&["f"])));
    let from_edge: Edge = ustr("f").into();
    assert!(matches!(from_edge, TabEdge::Basic(f) if f == ustr("f")));
}

#[test]
fn commuting_square_exists_iff_its_decompositions_agree() {
    let model = chain();
    // Both ways around give the path f, g.
    let good = square(path(&["f"]), path(&["g"]), basic("f"), basic("g"));
    assert!(model.has_mor(&Path::single(good)));
    // One way gives f, g; the other f2, g.
    let differs = square(path(&["f"]), path(&["g"]), basic("f2"), basic("g"));
    assert!(!model.has_mor(&Path::single(differs)));
    // The domain f ends in b, where f does not start: no decomposition.
    let undefined = square(path(&["f"]), path(&["g"]), basic("f"), basic("f"));
    assert!(!model.has_mor(&Path::single(undefined)));
    // The decompositions agree, but the domain does not exist.
    let missing = square(path(&["k"]), path(&["g"]), basic("k"), basic("g"));
    assert!(!model.has_mor(&Path::single(missing)));
    // Identities on both sides: both ways around give the path h.
    let trivial = square(Path::empty(ob("a")), Path::empty(ob("a")), basic("h"), basic("h"));
    assert!(model.has_mor(&Path::single(trivial)));
    // The same, at an object that is not registered.
    let nowhere = square(Path::empty(ob("d")), Path::empty(ob("d")), basic("h"), basic("h"));
    assert!(!model.has_mor(&Path::single(nowhere)));
}

#[test]
fn square_needs_its_ends_even_where_its_decompositions_agree() {
    let mut model = chain();
    // A loop at an object that is not registered.
    assert!(model.add_mor(ustr("k"), ob("d"), ob("d"), hom_type()));
    assert!(model.has_mor(&path(&["k"])));
    assert!(!model.has_ob(&ob("d")));
    // Both ways around give the path k, but the ends of the square do not exist.
    let sq = square(Path::empty(ob("d")), Path::empty(ob("d")), basic("k"), basic("k"));
    assert!(!model.has_mor(&Path::single(sq)));
    assert!(model.add_ob(ustr("d"), object_type()));
    let sq = square(Path::empty(ob("d")), Path::empty(ob("d")), basic("k"), basic("k"));
    assert!(model.has_mor(&Path::single(sq)));
}

#[test]
fn squares_run_between_tabulated_morphisms() {
    let model = chain();
    let sq = Path::single(square(path(&["f"]), path(&["g"]), basic("f"), basic("g")));
    assert!(same_ob(&model.dom(&sq), &model.tabulated_gen(ustr("f"))));
    assert!(same_ob(&model.cod(&sq), &model.tabulated_gen(ustr("g"))));
    assert!(model.has_ob(&model.dom(&sq)));
    assert!(model.has_ob(&model.tabulated(sq)));
}

#[test]
fn compose_concatenates_basic_edges() {
    let model = chain();
    let pieces = Path::from_vec(vec![path(&["h"]), path(&["f"]), path(&["g"])]).unwrap();
    assert!(model.composable(&pieces));
    assert!(same_mor(&model.compose(pieces), &path(&["h", "f", "g"])));
    let pieces = Path::from_vec(vec![path(&["h", "f"]), Path::empty(ob("b")), path(&["g"])]).unwrap();
    assert!(same_mor(&model.compose(pieces), &path(&["h", "f", "g"])));
    let pieces: Path<Ob, Mor> =
        Path::from_vec(vec![Path::empty(ob("b")), Path::empty(ob("b"))]).unwrap();
    assert!(same_mor(&model.compose(pieces), &Path::empty(ob("b"))));
    assert!(same_mor(&model.compose(Path::empty(ob("c"))), &Path::empty(ob("c"))));
    let broken = Path::from_vec(vec![path(&["g"]), path(&["f"])]).unwrap();
    assert!(!model.composable(&broken));
    let broken: Path<Ob, Mor> =
        Path::from_vec(vec![Path::empty(ob("a")), Path::empty(ob("b"))]).unwrap();
    assert!(!model.composable(&broken));
}

#[test]
fn types_of_objects_and_morphisms() {
    let mut model = chain();
    let tab_f = model.tabulated_gen(ustr("f"));
    assert!(model.add_mor(
        ustr("link"),
        ob("a"),
        tab_f,
        TabMorType::Basic(ustr("Link"))
    ));
    assert_eq!(model.ob_type(&ob("a")), object_type());
    assert_eq!(model.mor_type(&path(&["f"])), hom_type());
    assert_eq!(model.mor_type(&path(&["f", "g"])), hom_type());
    assert_eq!(model.mor_type(&Path::empty(ob("a"))), hom_type());
    assert_eq!(model.mor_type(&path(&["link"])), TabMorType::Basic(ustr("Link")));
    assert_eq!(model.mor_type(&path(&["h", "link"])), TabMorType::Basic(ustr("Link")));
    let tab_type = TabObType::Tabulator(Box::new(hom_type()));
    assert_eq!(model.ob_type(&model.tabulated_gen(ustr("f"))), tab_type);
    let sq = Path::single(square(path(&["f"]), path(&["g"]), basic("f"), basic("g")));
    assert_eq!(
        model.mor_type(&sq),
        TabMorType::Hom(Box::new(TabObType::Tabulator(Box::new(hom_type()))))
    );
    assert!(model.theory().has_ob_type(&tab_type));
    assert!(model.theory().has_mor_type(&model.mor_type(&sq)));
    assert!(!model.theory().has_mor_type(&TabMorType::Basic(ustr("Other"))));
    assert_eq!(model.theory().src(&TabMorType::Basic(ustr("Link"))), object_type());
    assert_eq!(model.theory().tgt(&TabMorType::Basic(ustr("Link"))), tab_type);
    assert_eq!(model.object_generators_with_type(&object_type()).len(), 3);
    assert_eq!(
        model.morphism_generators_with_type(&TabMorType::Basic(ustr("Link"))),
        vec![ustr("link")]
    );
}

#[test]
fn identity_and_projections_act_on_objects() {
    let model = chain();
    let tab_f = model.tabulated_gen(ustr("f"));
    let id = TabObOp::Id(object_type());
    assert!(same_ob(&model.ob_act(ob("a"), &id), &ob("a")));
    let proj_src = TabObOp::ProjSrc(hom_type());
    let proj_tgt = TabObOp::ProjTgt(hom_type());
    assert!(same_ob(&model.ob_act(model.tabulated_gen(ustr("f")), &proj_src), &ob("a")));
    assert!(same_ob(&model.ob_act(tab_f, &proj_tgt), &ob("b")));
    let id = TabMorOp::Id(Path::single(hom_type()));
    assert!(same_mor(&model.mor_act(path(&["f", "g"]), &id), &path(&["f", "g"])));
}

#[test]
fn models_can_be_keyed_by_integers() {
    let mut th: DiscreteTabTheory<u64, u64> = DiscreteTabTheory::new();
    th.add_ob_type(1);
    th.add_mor_type(2, TabObType::Basic(1), TabObType::Basic(1));
    th.add_mor_type(3, TabObType::Basic(1), TabObType::Basic(1));
    th.set_composite(2, 3, TabMorType::Basic(2));
    let mut model: DiscreteTabModel<u64, u64> = DiscreteTabModel::new(Arc::new(th));
    model.add_ob(10, TabObType::Basic(1));
    model.add_mor(20, TabOb::Basic(10), TabOb::Basic(10), TabMorType::Basic(2));
    model.add_mor(30, TabOb::Basic(10), TabOb::Basic(10), TabMorType::Basic(3));
    let p = Path::pair(TabEdge::Basic(20), TabEdge::Basic(30));
    assert!(model.has_mor(&p));
    assert_eq!(model.mor_type(&p), TabMorType::Basic(2));
}

#[test]
fn tabulator_models_are_equal_if_they_share_theory_and_data() {
    let th = Arc::new(th_category_links());
    let mut first = UstrDiscreteTabModel::new(th.clone());
    let mut second = UstrDiscreteTabModel::new(th.clone());
    assert!(first == second);
    first.add_ob(ustr("a"), object_type());
    first.add_ob(ustr("b"), object_type());
    assert!(first != second);
    second.add_ob(ustr("b"), object_type());
    second.add_ob(ustr("a"), object_type());
    assert!(first == second);
    first.add_mor(ustr("f"), ob("a"), first.tabulated_gen(ustr("g")), hom_type());
    second.add_mor(ustr("f"), ob("a"), ob("b"), hom_type());
    assert!(first != second);
    second.add_mor(ustr("f"), ob("a"), second.tabulated(path(&["g"])), hom_type());
    assert!(first == second);
    assert!(first.same_data(&second));
    assert!(!first.same_model_if(&second, false));
    let apart = UstrDiscreteTabModel::new(Arc::new(th_category_links()));
    assert!(apart != UstrDiscreteTabModel::new(th));
    assert!(apart.same_data(&UstrDiscreteTabModel::new(Arc::new(th_category_links()))));
}

#[test]
fn duplicates_are_equal_to_what_they_duplicate() {
    let model = chain();
    let sq = square(path(&["f"]), path(&["g"]), basic("f"), basic("g"));
    let copy = catlog::tab_model::duplicate_edge(&sq);
    assert_eq!(copy, sq);
    assert!(catlog::tab_model::same_edge(&copy, &sq));
    let tab = model.tabulated(Path::single(sq));
    let tab_copy = catlog::tab_model::duplicate_ob(&tab);
    assert_eq!(tab_copy, tab);
    assert!(same_ob(&tab_copy, &tab));
    assert_ne!(tab, ob("a"));
    assert!(!same_ob(&tab, &ob("a")));
    let mor = path(&["f", "g"]);
    assert_eq!(catlog::tab_model::duplicate_mor(&mor), mor);
    assert!(!same_mor(&mor, &path(&["f"])));
    assert!(!same_mor(&mor, &path(&["f", "h"])));
    assert!(!same_mor(&mor, &Path::empty(ob("a"))));
    assert_eq!(TabObOp::<Ustr, Ustr>::Id(object_type()), TabObOp::Id(object_type()));
}
