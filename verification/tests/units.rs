//! Unit tests of the rewrite algebra, the proof vocabulary and the SSA
//! decomposition.
use open_hypergraphs::lax::OpenHypergraph;
use proofcell::{parallel_ssa, parallel_ssa_cyclic, premise, ssa, Cell, Rewrite, Type};

#[derive(Clone, PartialEq, Debug)]
struct Ob;

#[derive(Clone, PartialEq, Debug)]
enum Ar {
    G,
    H,
}

type Diagram = OpenHypergraph<Ob, Ar>;

fn d_id() -> Diagram {
    OpenHypergraph::identity(vec![Ob])
}

fn d_g() -> Diagram {
    OpenHypergraph::singleton(Ar::G, vec![Ob], vec![Ob])
}

fn d_h() -> Diagram {
    OpenHypergraph::singleton(Ar::H, vec![Ob], vec![Ob])
}

#[test]
fn rewrite_new_accepts_matching_boundaries() {
    let r = Rewrite::new(d_id(), d_g()).unwrap();
    assert_eq!(r.source(), &d_id());
    assert_eq!(r.target(), &d_g());
}

#[test]
fn rewrite_new_rejects_mismatched_boundaries() {
    let two = OpenHypergraph::identity(vec![Ob, Ob]);
    assert_eq!(Rewrite::new(d_id(), two), None);
}

#[test]
fn rewrite_into_parts_round_trip() {
    let r = Rewrite::new(d_g(), d_h()).unwrap();
    let (s, t) = r.into_parts();
    assert_eq!(s, d_g());
    assert_eq!(t, d_h());
}

#[test]
fn rewrite_c0_tensors_both_sides() {
    let a = Rewrite::new(d_id(), d_g()).unwrap();
    let b = Rewrite::new(d_g(), d_h()).unwrap();
    let c = a.c0(&b);
    assert_eq!(c.source(), &(a.source() | b.source()));
    assert_eq!(c.target(), &(a.target() | b.target()));
}

#[test]
fn rewrite_c1_composes_both_sides() {
    let a = Rewrite::new(d_g(), d_h()).unwrap();
    let b = Rewrite::new(d_g(), d_h()).unwrap();
    let c = a.clone().c1(b.clone()).unwrap();
    assert_eq!(c.source(), &(&d_g() >> &d_g()).unwrap());
    assert_eq!(c.target(), &(&d_h() >> &d_h()).unwrap());
}

#[test]
fn rewrite_c1_fails_on_boundary_mismatch() {
    let a = Rewrite::new(d_g(), d_h()).unwrap();
    let wide = OpenHypergraph::identity(vec![Ob, Ob]);
    let b = Rewrite::new(wide.clone(), wide).unwrap();
    assert_eq!(a.c1(b), None);
}

#[test]
fn rewrite_c2_requires_structural_equality() {
    let a = Rewrite::new(d_id(), d_g()).unwrap();
    let b = Rewrite::new(d_g(), d_h()).unwrap();
    let c = a.clone().c2(b).unwrap();
    assert_eq!(c.source(), &d_id());
    assert_eq!(c.target(), &d_h());
    let b2 = Rewrite::new(d_h(), d_id()).unwrap();
    assert_eq!(a.c2(b2), None);
}

#[test]
fn cell_profiles() {
    let copy: Cell<Ob, Ar> = Cell::Copy;
    let c0: Cell<Ob, Ar> = Cell::C0;
    let c1: Cell<Ob, Ar> = Cell::C1;
    let c2: Cell<Ob, Ar> = Cell::C2;
    let r: Cell<Ob, Ar> = Cell::R(Rewrite::new(d_id(), d_g()).unwrap());
    assert_eq!(copy.profile(), (1, 2));
    assert_eq!(r.profile(), (0, 1));
    assert_eq!(c0.profile(), (2, 1));
    assert_eq!(c1.profile(), (2, 1));
    assert_eq!(c2.profile(), (2, 1));
}

#[test]
fn cell_var_is_copy() {
    assert_eq!(Cell::<Ob, Ar>::var(), Cell::Copy);
}

#[test]
fn cell_term_is_a_singleton() {
    let t = Cell::<Ob, Ar>::C0.term();
    assert_eq!(t.sources.len(), 2);
    assert_eq!(t.targets.len(), 1);
    assert_eq!(t.hypergraph.edges.len(), 1);
    assert_eq!(t.hypergraph.edges[0], Cell::C0);
}

#[test]
fn ssa_orders_producers_before_consumers() {
    let r = Rewrite::new(d_g(), d_h()).unwrap();
    let mut term = (&premise(r.clone()) >> &Cell::Copy.term()).unwrap();
    term.quotient().unwrap();
    let records = ssa(term).unwrap();
    assert_eq!(records.len(), 2);
    // The constant box comes first, the copy box after it, and the copy
    // reads exactly the node the constant wrote.
    assert_eq!(records[0].op, Cell::R(r));
    assert_eq!(records[1].op, Cell::Copy);
    assert_eq!(records[0].targets.len(), 1);
    assert_eq!(records[1].sources.len(), 1);
    assert_eq!(records[0].targets[0].0, records[1].sources[0].0);
}

#[test]
fn parallel_ssa_groups_independent_boxes() {
    let r1 = Rewrite::new(d_id(), d_g()).unwrap();
    let r2 = Rewrite::new(d_g(), d_h()).unwrap();
    let mut term = (&(&premise(r1) | &premise(r2)) >> &Cell::C0.term()).unwrap();
    term.quotient().unwrap();
    let layers = parallel_ssa(term).unwrap();
    // One row per possible depth; only the first two are inhabited here.
    assert_eq!(layers[0].len(), 2);
    assert_eq!(layers[1].len(), 1);
    assert_eq!(layers[1][0].op, Cell::C0);
    assert!(layers.iter().skip(2).all(|row| row.is_empty()));
}

#[test]
fn parallel_ssa_cyclic_reports_unvisited() {
    let mut term = OpenHypergraph::<Type, Cell<Ob, Ar>>::empty();
    let n = term.new_node(Type);
    term.new_edge(Cell::Copy, (vec![n], vec![n]));
    let (rows, unvisited) = parallel_ssa_cyclic(term);
    assert!(unvisited.contains(&1));
    // Best effort: the unreached box is still reported, in some row.
    let total: usize = rows.iter().map(|row| row.len()).sum();
    assert_eq!(total, 1);
}
