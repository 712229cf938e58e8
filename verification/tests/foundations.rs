use catlog::fp_category::{FpCategory, InvalidFpCategory, InvalidPathEq};
use catlog::graph::{Graph, InvalidGraphData};
use catlog::ident::{same_option, Ident};
use catlog::path::{duplicate_vec, same_vec, Path, PathEq};
use catlog::tab_theory::{DiscreteTabTheory, TabMorType, TabObType};
use catlog::theory::{DblTheory, DiscreteDblTheory, FinCategory, FinMor};
use catlog::validate::wrap_errors;
use catlog::zero::{position, Column, FinSet};
use ustr::ustr;

#[test]
fn identifiers_compare_by_value() {
    assert!(5u64.same(&5));
    assert!(!5u64.same(&6));
    assert_eq!(7u64.duplicate(), 7);
    assert!(7usize.same(&7usize.duplicate()));
    assert!((1u64, 2u64).same(&(1, 2)));
    assert!(!(1u64, 2u64).same(&(2, 1)));
    assert!(ustr("a").same(&ustr("a")));
    assert!(!ustr("a").same(&ustr("b")));
    assert_eq!(ustr("a").duplicate(), ustr("a"));
    assert!(same_option(&Some(1u64), &Some(1)));
    assert!(!same_option(&Some(1u64), &None));
    assert!(same_option::<u64>(&None, &None));
    assert!(FinMor::<u64, u64>::Id(1).same(&FinMor::Id(1)));
    assert!(!FinMor::<u64, u64>::Id(1).same(&FinMor::Generator(1)));
}

#[test]
fn finite_sets_keep_insertion_order_without_duplicates() {
    let mut s: FinSet<u64> = FinSet::new();
    assert!(s.is_empty());
    assert!(s.insert(3));
    assert!(s.insert(1));
    assert!(!s.insert(3));
    assert_eq!(s.len(), 2);
    assert_eq!(s.to_vec(), vec![3, 1]);
    assert_eq!(*s.get(1), 1);
    assert!(s.contains(&1));
    assert!(!s.contains(&2));
    let mut t: FinSet<u64> = FinSet::new();
    t.insert(1);
    assert!(!s.same_elements(&t));
    t.insert(3);
    assert!(s.same_elements(&t));
    assert_eq!(position(&vec![4u64, 5, 4], &4), Some(0));
    assert_eq!(position(&vec![4u64, 5, 4], &6), None);
}

#[test]
fn columns_overwrite_in_place() {
    let mut c: Column<u64, u64> = Column::new();
    assert_eq!(c.set(1, 10), None);
    assert_eq!(c.set(2, 20), None);
    assert_eq!(c.set(1, 30), Some(10));
    assert_eq!(c.len(), 2);
    assert_eq!(c.get(&1), Some(&30));
    assert_eq!(c.get(&3), None);
    assert!(c.contains_key(&2));
    assert_eq!(*c.key_at(0), 1);
    assert_eq!(*c.val_at(0), 30);
    assert_eq!(c.key_position(&2), Some(1));
    assert!(c.aligned());
    c.set(3, 30);
    assert_eq!(c.preimage(&30), vec![1, 3]);
    assert!(c.preimage(&10).is_empty());
    let mut d: Column<u64, u64> = Column::new();
    d.set(3, 30);
    d.set(2, 20);
    assert!(!c.same_entries(&d));
    d.set(1, 30);
    assert!(c.same_entries(&d));
    d.set(1, 31);
    assert!(!c.same_entries(&d));
}

#[test]
fn paths_are_built_and_compared() {
    let p: Path<u64, u64> = Path::pair(1, 2);
    assert!(p.same(&Path::from_vec(vec![1, 2]).unwrap()));
    assert!(!p.same(&Path::from_vec(vec![2, 1]).unwrap()));
    assert!(!p.same(&Path::single(1)));
    assert!(!Path::<u64, u64>::single(1).same(&Path::empty(1)));
    assert!(Path::<u64, u64>::from_vec(vec![]).is_none());
    assert!(Path::<u64, u64>::empty(4).is_empty());
    assert!(!p.is_empty());
    assert_eq!(p.first(), Some(&1));
    assert_eq!(p.last(), Some(&2));
    assert_eq!(Path::<u64, u64>::single(9).last(), Some(&9));
    assert_eq!(Path::<u64, u64>::empty(4).first(), None);
    assert!(p.duplicate().same(&p));
    assert_eq!(duplicate_vec(&vec![1u64, 2]), vec![1, 2]);
    assert!(same_vec(&vec![1u64, 2], &vec![1, 2]));
    assert!(!same_vec(&vec![1u64, 2], &vec![1, 3]));
    assert!(!same_vec(&vec![1u64, 2], &vec![1]));
}

#[test]
fn flattening_joins_the_pieces_and_drops_empty_ones() {
    let pp = Path::from_vec(vec![Path::<u64, u64>::single(1), Path::single(2), Path::single(3)])
        .unwrap();
    assert!(Path::flatten(&pp).same(&Path::from_vec(vec![1, 2, 3]).unwrap()));
    let pp = Path::from_vec(vec![Path::<u64, u64>::empty(7), Path::pair(1, 2), Path::empty(8)])
        .unwrap();
    assert!(Path::flatten(&pp).same(&Path::pair(1, 2)));
    let pp = Path::from_vec(vec![Path::<u64, u64>::empty(7), Path::empty(8)]).unwrap();
    assert!(Path::flatten(&pp).same(&Path::empty(7)));
    let pp: Path<u64, Path<u64, u64>> = Path::empty(5);
    assert!(Path::flatten(&pp).same(&Path::empty(5)));
}

/// Vertices 1, 2, 3 and edges 10: 1 -> 2, 11: 2 -> 3, 12: 3 -> 9, 13 without ends.
fn sample_graph() -> Graph<u64, u64> {
    let mut g = Graph::new();
    assert!(g.add_vertex(1));
    assert!(g.add_vertex(2));
    assert!(g.add_vertex(3));
    assert!(!g.add_vertex(2));
    assert!(g.add_edge(10, 1, 2));
    assert!(g.add_edge(11, 2, 3));
    assert!(g.add_edge(12, 3, 9));
    assert!(g.make_edge(13));
    assert!(!g.make_edge(10));
    g
}

#[test]
fn graphs_report_dangling_edges() {
    let mut g = sample_graph();
    assert_eq!(g.vertices(), vec![1, 2, 3]);
    assert_eq!(g.edges(), vec![10, 11, 12, 13]);
    assert!(g.has_vertex(&3));
    assert!(!g.has_vertex(&9));
    assert!(g.has_edge(&13));
    assert!(!g.has_edge(&14));
    assert_eq!(g.get_src(&10), Some(&1));
    assert_eq!(g.get_tgt(&12), Some(&9));
    assert_eq!(g.get_src(&13), None);
    assert!(g.src_ok(&10));
    assert!(!g.tgt_ok(&12));
    assert!(g.joined(&10, &11));
    assert!(!g.joined(&11, &10));
    assert!(!g.joined(&12, &13));
    let errs = g.iter_invalid();
    assert_eq!(errs.len(), 3);
    assert!(matches!(errs[0], InvalidGraphData::Src(13)));
    assert!(matches!(errs[1], InvalidGraphData::Tgt(12)));
    assert!(matches!(errs[2], InvalidGraphData::Tgt(13)));
    assert_eq!(g.set_tgt(12, 1), Some(9));
    assert_eq!(g.set_src(13, 1), None);
    assert_eq!(g.set_tgt(13, 1), None);
    assert!(g.iter_invalid().is_empty());
    assert!(!g.add_edge(10, 3, 3));
    assert_eq!(g.get_src(&10), Some(&3));
    assert!(g.same_data(&g));
    assert!(!g.same_data(&sample_graph()));
}

#[test]
fn paths_live_in_graphs() {
    let g = sample_graph();
    let p: Path<u64, u64> = Path::pair(10, 11);
    assert!(p.contained_in(&g));
    assert!(!Path::pair(11, 10).contained_in(&g));
    assert!(!Path::pair(10u64, 14).contained_in(&g));
    assert!(!Path::pair(12u64, 13).contained_in(&g));
    assert!(Path::<u64, u64>::empty(1).contained_in(&g));
    assert!(!Path::<u64, u64>::empty(9).contained_in(&g));
    assert_eq!(p.src(&g), Some(1));
    assert_eq!(p.tgt(&g), Some(3));
    assert_eq!(Path::<u64, u64>::single(13).src(&g), None);
    assert_eq!(Path::<u64, u64>::empty(5).tgt(&g), Some(5));
    let joined = Path::single(10).concat_in(&g, Path::single(11)).unwrap();
    assert!(joined.same(&p));
    assert!(Path::single(11u64).concat_in(&g, Path::single(10)).is_none());
    assert!(Path::single(10u64).concat_in(&g, Path::empty(2)).unwrap().same(&Path::single(10)));
    assert!(Path::single(10u64).concat_in(&g, Path::empty(1)).is_none());
    assert!(Path::empty(1u64).concat_in(&g, Path::single(10)).unwrap().same(&Path::single(10)));
    assert!(Path::<u64, u64>::empty(1).concat_in(&g, Path::empty(1)).unwrap().same(&Path::empty(1)));
    assert!(Path::<u64, u64>::empty(1).concat_in(&g, Path::empty(2)).is_none());
    let pp = Path::from_vec(vec![Path::single(10u64), Path::empty(2), Path::single(11)]).unwrap();
    assert!(Path::flatten_in(&pp, &g).unwrap().same(&p));
    let pp = Path::from_vec(vec![Path::single(11u64), Path::single(10)]).unwrap();
    assert!(Path::flatten_in(&pp, &g).is_none());
}

#[test]
fn presentations_validate_their_equations() {
    let mut c: FpCategory<u64, u64, u64> = FpCategory::new();
    assert!(c.is_free());
    assert!(c.add_ob_generator(1));
    assert!(c.add_ob_generator(2));
    assert!(c.add_mor_generator(10, 1, 2));
    assert!(c.add_mor_generator(11, 1, 2));
    assert!(c.make_mor_generator(12));
    assert_eq!(c.set_dom(12, 2), None);
    assert_eq!(c.set_cod(12, 5), None);
    assert_eq!(c.get_dom(&12), Some(&2));
    assert_eq!(c.get_cod(&12), Some(&5));
    c.add_equation(100, PathEq::new(Path::single(10), Path::single(11)));
    c.add_equation(101, PathEq::new(Path::single(10), Path::single(12)));
    c.add_equation(102, PathEq::new(Path::single(13), Path::empty(7)));
    assert!(!c.is_free());
    let errs = c.iter_invalid();
    assert_eq!(errs.len(), 5);
    assert!(matches!(errs[0], InvalidFpCategory::Cod(12)));
    assert!(matches!(errs[1], InvalidFpCategory::EqSrc(101)));
    assert!(matches!(errs[2], InvalidFpCategory::EqTgt(101)));
    assert!(matches!(errs[3], InvalidFpCategory::EqLhs(102)));
    assert!(matches!(errs[4], InvalidFpCategory::EqRhs(102)));
    let eq = PathEq::new(Path::single(10u64), Path::single(12u64));
    let eq_errs = eq.iter_invalid_in(c.generators());
    assert!(matches!(eq_errs[..], [InvalidPathEq::Src, InvalidPathEq::Tgt]));
    assert!(c.has_ob(&1));
    assert!(c.has_mor(&Path::single(10)));
    assert_eq!(c.dom(&Path::single(10)), 1);
    assert_eq!(c.cod(&Path::single(10)), 2);
    assert!(c.compose2(Path::single(10), Path::empty(2)).same(&Path::single(10)));
    assert_eq!(c.object_generators(), vec![1, 2]);
    assert_eq!(c.morphism_generators(), vec![10, 11, 12]);
    assert!(c.same_presentation(&c));
    let mut d: FpCategory<u64, u64, u64> = FpCategory::new();
    d.add_ob_generator(1);
    assert!(!c.same_presentation(&d));
}

#[test]
fn finite_categories_compose_by_their_table() {
    let mut cat: FinCategory<u64, u64> = FinCategory::new();
    cat.add_ob_generator(1);
    cat.add_mor_generator(10, 1, 1);
    cat.add_mor_generator(11, 1, 1);
    cat.set_composite(10, 10, FinMor::Generator(11));
    cat.set_composite(11, 10, FinMor::Id(1));
    assert!(cat.has_ob(&1));
    assert!(cat.has_mor(&FinMor::Generator(10)));
    assert!(!cat.has_mor(&FinMor::Generator(12)));
    assert!(cat.has_mor(&FinMor::Id(1)));
    assert!(!cat.has_mor(&FinMor::Id(2)));
    assert_eq!(cat.dom(&FinMor::Generator(10)), 1);
    assert_eq!(cat.cod(&FinMor::Id(1)), 1);
    let gen = |e| FinMor::<u64, u64>::Generator(e);
    assert!(matches!(cat.compose2(gen(10), gen(10)), Some(FinMor::Generator(11))));
    assert!(matches!(cat.compose2(gen(10), gen(11)), None));
    assert!(matches!(cat.compose2(FinMor::Id(1), gen(10)), Some(FinMor::Generator(10))));
    assert!(matches!(cat.compose2(gen(11), FinMor::Id(1)), Some(FinMor::Generator(11))));
    let path = Path::from_vec(vec![gen(10), gen(10), gen(10)]).unwrap();
    assert!(matches!(cat.compose(path), Some(FinMor::Id(1))));
    let path = Path::from_vec(vec![gen(10), gen(11), gen(10)]).unwrap();
    assert!(cat.compose(path).is_none());
    assert!(matches!(cat.compose(Path::empty(1)), Some(FinMor::Id(1))));
    let th = DiscreteDblTheory::from(cat);
    assert!(th.has_ob_type(&1));
    assert!(!th.has_ob_type(&2));
    assert!(th.has_mor_type(&gen(11)));
    assert_eq!(th.src(&gen(10)), 1);
    assert_eq!(th.tgt(&gen(10)), 1);
    let path = Path::from_vec(vec![gen(10), gen(10)]).unwrap();
    assert!(matches!(th.compose_types(path), FinMor::Generator(11)));
}

#[test]
fn tabulator_theories_compose_types() {
    let mut th: DiscreteTabTheory<u64, u64> = DiscreteTabTheory::new();
    assert!(th.add_ob_type(1));
    assert!(!th.add_ob_type(1));
    assert!(th.add_ob_type(2));
    assert!(th.add_mor_type(10, TabObType::Basic(1), TabObType::Basic(2)));
    assert!(th.add_mor_type(11, TabObType::Basic(2), TabObType::Basic(1)));
    assert!(!th.add_mor_type(11, TabObType::Basic(2), TabObType::Basic(2)));
    th.set_composite(10, 11, TabMorType::Basic(10));
    let hom = |x| TabMorType::<u64, u64>::Hom(Box::new(TabObType::Basic(x)));
    let basic = |e| TabMorType::<u64, u64>::Basic(e);
    assert!(th.contains_ob_type(&TabObType::Basic(1)));
    assert!(!th.contains_ob_type(&TabObType::Basic(3)));
    assert!(th.contains_ob_type(&TabObType::Tabulator(Box::new(basic(10)))));
    assert!(!th.contains_ob_type(&TabObType::Tabulator(Box::new(basic(12)))));
    assert!(th.contains_mor_type(&hom(2)));
    assert!(!th.contains_mor_type(&hom(3)));
    assert_eq!(th.get_src(&basic(10)), Some(TabObType::Basic(1)));
    assert_eq!(th.get_tgt(&basic(11)), Some(TabObType::Basic(2)));
    assert_eq!(th.get_src(&basic(12)), None);
    assert_eq!(th.get_tgt(&hom(2)), Some(TabObType::Basic(2)));
    assert_eq!(th.compose2_types(basic(10), hom(2)), Some(basic(10)));
    assert_eq!(th.compose2_types(hom(1), basic(10)), Some(basic(10)));
    assert_eq!(th.compose2_types(basic(10), hom(1)), None);
    assert_eq!(th.compose2_types(hom(2), basic(10)), None);
    assert_eq!(th.compose2_types(basic(10), basic(11)), Some(basic(10)));
    assert_eq!(th.compose2_types(basic(11), basic(10)), None);
    assert_eq!(th.compose2_types(hom(1), hom(1)), Some(hom(1)));
    let path = Path::from_vec(vec![hom(1), basic(10), basic(11), hom(2)]).unwrap();
    assert_eq!(th.try_compose_types(&path), Some(basic(10)));
    let path = Path::from_vec(vec![basic(11), basic(11)]).unwrap();
    assert_eq!(th.try_compose_types(&path), None);
    assert_eq!(th.try_compose_types(&Path::empty(TabObType::Basic(1))), Some(hom(1)));
    assert_eq!(th.compose_types(Path::pair(basic(10), basic(11))), basic(10));
    assert!(hom(1).same(&hom(1).duplicate()));
    assert!(!hom(1).same(&hom(2)));
    assert!(!TabObType::<u64, u64>::Basic(1).same(&TabObType::Tabulator(Box::new(hom(1)))));
}

#[test]
fn errors_are_wrapped_unless_there_are_none() {
    assert!(wrap_errors::<u64>(vec![]).is_ok());
    let errs = wrap_errors(vec![3u64, 1, 2]).unwrap_err();
    assert_eq!(errs.head, 3);
    assert_eq!(errs.tail, vec![1, 2]);
    assert_eq!(errs.len(), 3);
}

#[test]
fn derived_equality_agrees_with_comparison() {
    let p: Path<u64, u64> = Path::pair(1, 2);
    let q: Path<u64, u64> = Path::from_vec(vec![1, 2]).unwrap();
    assert_eq!(p, q);
    assert!(p.same(&q));
    let r: Path<u64, u64> = Path::single(1);
    assert_ne!(p, r);
    assert!(!p.same(&r));
    assert_eq!(PathEq::new(p, r), PathEq::new(q, Path::single(1)));
    assert_eq!(FinMor::<u64, u64>::Generator(3), FinMor::Generator(3).duplicate());
    assert_eq!(InvalidGraphData::Src(1u64), InvalidGraphData::Src(1));
    assert_ne!(InvalidFpCategory::<u64, u64>::Dom(1), InvalidFpCategory::Cod(1));
    assert_ne!(InvalidPathEq::Lhs, InvalidPathEq::Rhs);
}
