//! End-to-end evaluation scenarios.
use open_hypergraphs::lax::{NodeId, OpenHypergraph};
use proofcell::{eval, premise, Cell, EvalErr, Proof, Rewrite, SSAError, Type};

#[derive(Clone, PartialEq, Debug)]
struct Ob;

#[derive(Clone, PartialEq, Debug)]
enum Ar {
    G,
    H,
}

type Diagram = OpenHypergraph<Ob, Ar>;

fn d_id() -> Diagram {
    OpenHypergraph::identity(vec![Ob])
}

fn d_id2() -> Diagram {
    OpenHypergraph::identity(vec![Ob, Ob])
}

fn d_g() -> Diagram {
    OpenHypergraph::singleton(Ar::G, vec![Ob], vec![Ob])
}

fn d_h() -> Diagram {
    OpenHypergraph::singleton(Ar::H, vec![Ob], vec![Ob])
}

fn quotiented(mut term: Proof<Ob, Ar>) -> Proof<Ob, Ar> {
    term.quotient().unwrap();
    term
}

#[test]
fn axiom_identity_single_box() {
    let r = Rewrite::new(d_id(), d_g()).unwrap();
    let term = premise(r.clone());
    let out = eval(term).unwrap();
    assert_eq!(out, vec![r]);
}

#[test]
fn tensor_scenario() {
    let r1 = Rewrite::new(d_id(), d_g()).unwrap();
    let r2 = Rewrite::new(d_g(), d_h()).unwrap();
    let term = quotiented((&(&premise(r1.clone()) | &premise(r2.clone())) >> &Cell::C0.term()).unwrap());
    let out = eval(term).unwrap();
    let expected = Rewrite::new(r1.source() | r2.source(), r1.target() | r2.target()).unwrap();
    assert_eq!(out, vec![expected]);
}

#[test]
fn sequential_failure_scenario() {
    // r2's boundary is two wires wide; composing after r1 must fail at the
    // composition box, which is the third box (id 2) of the pasted term.
    let r1 = Rewrite::new(d_id(), d_g()).unwrap();
    let r2 = Rewrite::new(d_id2(), d_id2()).unwrap();
    let term = quotiented((&(&premise(r1) | &premise(r2)) >> &Cell::C1.term()).unwrap());
    assert_eq!(eval(term), Err(EvalErr::C1(2)));
}

#[test]
fn sequential_success() {
    let r = Rewrite::new(d_g(), d_h()).unwrap();
    let term = quotiented((&(&premise(r.clone()) | &premise(r.clone())) >> &Cell::C1.term()).unwrap());
    let out = eval(term).unwrap();
    let expected = Rewrite::new(
        (&d_g() >> &d_g()).unwrap(),
        (&d_h() >> &d_h()).unwrap(),
    )
    .unwrap();
    assert_eq!(out, vec![expected]);
}

#[test]
fn vertical_success() {
    // r1 : id => g and r2 : g => id compose vertically to id => id.
    let r1 = Rewrite::new(d_id(), d_g()).unwrap();
    let r2 = Rewrite::new(d_g(), d_id()).unwrap();
    let term = quotiented((&(&premise(r1) | &premise(r2)) >> &Cell::C2.term()).unwrap());
    let out = eval(term).unwrap();
    let expected = Rewrite::new(d_id(), d_id()).unwrap();
    assert_eq!(out, vec![expected]);
}

#[test]
fn vertical_failure() {
    // r1's target diagram is g, r2's source diagram is h: not structurally
    // equal, so the vertical-composition box (id 2) reports the failure.
    let r1 = Rewrite::new(d_id(), d_g()).unwrap();
    let r2 = Rewrite::new(d_h(), d_id()).unwrap();
    let term = quotiented((&(&premise(r1) | &premise(r2)) >> &Cell::C2.term()).unwrap());
    assert_eq!(eval(term), Err(EvalErr::C2(2)));
}

#[test]
fn copy_fan_out() {
    let r = Rewrite::new(d_g(), d_h()).unwrap();
    let copy3: Proof<Ob, Ar> =
        OpenHypergraph::singleton(Cell::Copy, vec![Type], vec![Type, Type, Type]);
    let term = quotiented((&premise(r.clone()) >> &copy3).unwrap());
    let out = eval(term).unwrap();
    assert_eq!(out, vec![r.clone(), r.clone(), r]);
}

#[test]
fn determinism() {
    let r1 = Rewrite::new(d_id(), d_g()).unwrap();
    let r2 = Rewrite::new(d_g(), d_h()).unwrap();
    let term = quotiented((&(&premise(r1) | &premise(r2)) >> &Cell::C0.term()).unwrap());
    let again = term.clone();
    assert_eq!(eval(term), eval(again));
}

#[test]
fn malformed_duplicate_write() {
    // Two constant boxes wired to produce the same port.
    let r1 = Rewrite::new(d_id(), d_g()).unwrap();
    let r2 = Rewrite::new(d_id(), d_h()).unwrap();
    let mut term: Proof<Ob, Ar> = OpenHypergraph::empty();
    let n = term.new_node(Type);
    term.new_edge(Cell::R(r1), (vec![], vec![n]));
    term.new_edge(Cell::R(r2), (vec![], vec![n]));
    term.targets = vec![n];
    assert_eq!(eval(term), Err(EvalErr::MultipleWrite(0)));
}

#[test]
fn cycle_detection() {
    // A box consuming its own output.
    let mut term: Proof<Ob, Ar> = OpenHypergraph::empty();
    let n = term.new_node(Type);
    term.new_edge(Cell::Copy, (vec![n], vec![n]));
    assert_eq!(proofcell::ssa(term.clone()), Err(SSAError::Cycle));
    assert_eq!(eval(term), Err(EvalErr::Cycle));
}

#[test]
fn missing_output_value() {
    // A designated output port that no box produces.
    let mut term: Proof<Ob, Ar> = OpenHypergraph::empty();
    let n = term.new_node(Type);
    term.targets = vec![n];
    assert_eq!(eval(term), Err(EvalErr::MultipleRead(0)));
}

#[test]
fn arity_error() {
    // A product box wired with a single source instead of two.
    let bad: Proof<Ob, Ar> = OpenHypergraph::singleton(Cell::C0, vec![Type], vec![Type]);
    let r = Rewrite::new(d_g(), d_h()).unwrap();
    let term = quotiented((&premise(r) >> &bad).unwrap());
    assert_eq!(eval(term), Err(EvalErr::ArityErr(1)));
}

#[test]
fn unread_leftover_is_permitted() {
    // A value that is neither consumed nor read out is silently discarded.
    let r1 = Rewrite::new(d_id(), d_g()).unwrap();
    let r2 = Rewrite::new(d_g(), d_h()).unwrap();
    let mut term: Proof<Ob, Ar> = OpenHypergraph::empty();
    let n1 = term.new_node(Type);
    let n2 = term.new_node(Type);
    term.new_edge(Cell::R(r1.clone()), (vec![], vec![n1]));
    term.new_edge(Cell::R(r2), (vec![], vec![n2]));
    term.targets = vec![NodeId(0)];
    assert_eq!(eval(term), Ok(vec![r1]));
    assert_eq!(n2, NodeId(1));
}
