//! The rewrite algebra and the proof vocabulary.
//!
//! A [`Rewrite`] pairs a source and a target diagram sharing a boundary; a
//! [`Cell`] is one of the fixed inference rules a proof term's boxes may
//! apply.  A proof term is a diagram whose boxes are cells and whose ports
//! all carry the placeholder sort [`Type`].
use vstd::prelude::*;
use open_hypergraphs::lax::OpenHypergraph;
use crate::diagram::{
    check_wf, clone_w, compose_post, compose_w, labels_eq_w, labels_src_w, labels_tgt_w,
    lemma_oh_eq_boundaries, oh_eq, oh_eq_w, singleton_post, singleton_w, src_lab, tensor_post,
    tensor_w, tgt_lab, wf_oh,
};

verus! {

/// The placeholder sort carried by every port of a proof term.
#[derive(Debug, Clone, Copy, PartialEq, Eq, Structural)]
pub struct Type;

/// A single rewrite rule: a source and a target diagram over the same
/// boundary.
#[derive(Debug, PartialEq)]
pub struct Rewrite<O, A> {
    source: OpenHypergraph<O, A>,
    target: OpenHypergraph<O, A>,
}

impl<O, A> Rewrite<O, A> {
    /// The source diagram, as a specification value.
    pub closed spec fn spec_source(self) -> OpenHypergraph<O, A> {
        self.source
    }

    /// The target diagram, as a specification value.
    pub closed spec fn spec_target(self) -> OpenHypergraph<O, A> {
        self.target
    }

    /// Both diagrams are coherent and share their boundary: same source-port
    /// labels and same target-port labels, in order.
    #[verifier::type_invariant]
    pub open spec fn wf(self) -> bool {
        &&& wf_oh(self.spec_source())
        &&& wf_oh(self.spec_target())
        &&& src_lab(self.spec_source()) == src_lab(self.spec_target())
        &&& tgt_lab(self.spec_source()) == tgt_lab(self.spec_target())
    }
}

impl<O: Clone + PartialEq, A: Clone + PartialEq> Rewrite<O, A> {
    /// Construct a rewrite.  Fails (returns `None`) exactly when the two
    /// diagrams are incoherent or their boundaries differ.
    pub fn new(source: OpenHypergraph<O, A>, target: OpenHypergraph<O, A>) -> (r: Option<Self>)
        ensures
            r is Some <==> {
                &&& wf_oh(source)
                &&& wf_oh(target)
                &&& src_lab(source) == src_lab(target)
                &&& tgt_lab(source) == tgt_lab(target)
            },
            r is Some ==> r->Some_0.spec_source() == source && r->Some_0.spec_target() == target,
    {
        if !check_wf(&source) || !check_wf(&target) {
            return None;
        }
        let ss = labels_src_w(&source);
        let ts = labels_src_w(&target);
        if !labels_eq_w(&ss, &ts) {
            return None;
        }
        let st = labels_tgt_w(&source);
        let tt = labels_tgt_w(&target);
        if !labels_eq_w(&st, &tt) {
            return None;
        }
        Some(Rewrite { source, target })
    }

    /// The source diagram.
    pub fn source(&self) -> (r: &OpenHypergraph<O, A>)
        ensures
            *r == self.spec_source(),
    {
        &self.source
    }

    /// The target diagram.
    pub fn target(&self) -> (r: &OpenHypergraph<O, A>)
        ensures
            *r == self.spec_target(),
    {
        &self.target
    }

    /// Split the rewrite into its source and target diagrams.
    pub fn into_parts(self) -> (r: (OpenHypergraph<O, A>, OpenHypergraph<O, A>))
        ensures
            r.0 == self.spec_source(),
            r.1 == self.spec_target(),
    {
        (self.source, self.target)
    }

    /// Parallel (pointwise) product of two rewrites.  Always succeeds on
    /// well-formed rewrites.
    pub fn c0(&self, other: &Self) -> (r: Self)
        ensures
            r.wf(),
            tensor_post(self.spec_source(), other.spec_source(), r.spec_source()),
            tensor_post(self.spec_target(), other.spec_target(), r.spec_target()),
    {
        proof {
            use_type_invariant(&*self);
            use_type_invariant(&*other);
        }
        let source = tensor_w(&self.source, &other.source);
        let target = tensor_w(&self.target, &other.target);
        Rewrite { source, target }
    }

    /// Sequential (pointwise) composition.  Fails exactly when the target
    /// boundary of `self` does not match the source boundary of `other`.
    pub fn c1(self, other: Self) -> (r: Option<Self>)
        ensures
            r is Some <==> tgt_lab(self.spec_source()) == src_lab(other.spec_source()),
            r is Some ==> {
                let v = r->Some_0;
                &&& v.wf()
                &&& compose_post(self.spec_source(), other.spec_source(), v.spec_source())
                &&& compose_post(self.spec_target(), other.spec_target(), v.spec_target())
            },
    {
        proof {
            use_type_invariant(&self);
            use_type_invariant(&other);
        }
        let source = match compose_w(&self.source, &other.source) {
            Some(s) => s,
            None => {
                return None;
            },
        };
        let target = match compose_w(&self.target, &other.target) {
            Some(t) => t,
            None => {
                return None;
            },
        };
        Some(Rewrite { source, target })
    }

    /// Vertical composition: defined exactly when `self`'s target diagram is
    /// structurally equal to `other`'s source diagram.  (Exact structural
    /// equality, not isomorphism — a known limitation of the calculus as
    /// implemented.)
    pub fn c2(self, other: Self) -> (r: Option<Self>)
        ensures
            r is Some <==> oh_eq(self.spec_target(), other.spec_source()),
            r is Some ==> {
                let v = r->Some_0;
                &&& v.wf()
                &&& v.spec_source() == self.spec_source()
                &&& v.spec_target() == other.spec_target()
            },
    {
        proof {
            use_type_invariant(&self);
            use_type_invariant(&other);
        }
        if !oh_eq_w(&self.target, &other.source) {
            return None;
        }
        proof {
            lemma_oh_eq_boundaries(self.spec_target(), other.spec_source());
        }
        Some(Rewrite { source: self.source, target: other.target })
    }
}

impl<O: Clone, A: Clone> Clone for Rewrite<O, A> {
    /// A clone is the same rewrite.
    fn clone(&self) -> (r: Self)
        ensures
            r == *self,
    {
        proof {
            use_type_invariant(&*self);
        }
        Rewrite { source: clone_w(&self.source), target: clone_w(&self.target) }
    }
}

/// A Cell is a generator of a proof term: one application of an inference
/// rule.
#[derive(Debug, Clone, PartialEq)]
pub enum Cell<O, A> {
    /// Reuse or discard a rewrite.
    Copy,
    /// A constant rewrite, carried as rule data.
    R(Rewrite<O, A>),
    /// Pointwise monoidal product.
    C0,
    /// Pointwise composition.
    C1,
    /// Vertical composition of rewrites.
    C2,
}

/// A proof term: a derivation of one or more rewrites by pasting of cells.
pub type Proof<O, A> = OpenHypergraph<Type, Cell<O, A>>;

impl<O, A> Cell<O, A> {
    /// The declared (arity, coarity) of each cell when used as a single box.
    pub open spec fn spec_profile(&self) -> (usize, usize) {
        match self {
            Cell::Copy => (1usize, 2usize),
            Cell::R(_) => (0usize, 1usize),
            Cell::C0 => (2usize, 1usize),
            Cell::C1 => (2usize, 1usize),
            Cell::C2 => (2usize, 1usize),
        }
    }

    /// The generator that stands for a variable: reuse or discard a value.
    pub fn var() -> (r: Self)
        ensures
            r == Cell::<O, A>::Copy,
    {
        Cell::Copy
    }

    /// The declared (arity, coarity) of this cell.
    pub fn profile(&self) -> (r: (usize, usize))
        ensures
            r == self.spec_profile(),
    {
        match self {
            Cell::Copy => (1, 2),
            Cell::R(_) => (0, 1),
            Cell::C0 | Cell::C1 | Cell::C2 => (2, 1),
        }
    }

    /// The proof term consisting of this single cell, its ports wired
    /// straight to the boundary.
    pub fn term(self) -> (r: Proof<O, A>)
        ensures
            singleton_post(
                self,
                Seq::new(self.spec_profile().0 as nat, |i: int| Type),
                Seq::new(self.spec_profile().1 as nat, |i: int| Type),
                r,
            ),
    {
        let (m, n) = self.profile();
        let s = type_row(m);
        let t = type_row(n);
        singleton_w(self, s, t)
    }
}

/// A row of `m` placeholder sorts.
fn type_row(m: usize) -> (r: Vec<Type>)
    ensures
        r@ == Seq::new(m as nat, |i: int| Type),
{
    let mut v: Vec<Type> = Vec::new();
    let mut k: usize = 0;
    while k < m
        invariant
            0 <= k <= m,
            v@ == Seq::new(k as nat, |i: int| Type),
        decreases m - k,
    {
        v.push(Type);
        proof {
            assert(v@ =~= Seq::new((k + 1) as nat, |i: int| Type));
        }
        k = k + 1;
    }
    v
}

/// A premise is a rewrite which is assumed: a constant box with no inputs
/// and one output (the rewrite), wired straight to the boundary.
pub fn premise<O: Clone + PartialEq, A: Clone + PartialEq>(r: Rewrite<O, A>) -> (p: Proof<O, A>)
    ensures
        singleton_post(Cell::R(r), Seq::empty(), Seq::new(1, |i: int| Type), p),
{
    let p = Cell::R(r).term();
    proof {
        assert(Seq::new(0, |i: int| Type) =~= Seq::<Type>::empty());
    }
    p
}

} // verus!
