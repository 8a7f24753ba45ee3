//! The diagram collaborator: typed circuits (open hypergraphs) with ordered
//! boundary ports, labelled boxes and wires.
//!
//! The diagram data structure itself, its composition operators and its
//! layering function live in the `open_hypergraphs` crate.  This module
//! declares the lax representation to the verifier — all of its fields are
//! public plain data — and provides the trusted boundary through which the
//! verified evaluation engine talks to the collaborator.  Every contract
//! stated here is a claim about `open_hypergraphs`' code, not something the
//! verifier checks.
//!
//! Label types `O` and `A` are assumed to clone and compare by value, as the
//! calculus' structural equality does; diagrams over labels with exotic
//! `Clone` or `PartialEq` implementations are outside this model.
use vstd::prelude::*;
use open_hypergraphs::lax;
use open_hypergraphs::lax::OpenHypergraph;
use open_hypergraphs::category::Arrow;

verus! {

#[verifier::external_type_specification]
pub struct ExNodeId(lax::NodeId);

#[verifier::external_type_specification]
pub struct ExHyperedge(lax::Hyperedge);

#[verifier::external_type_specification]
pub struct ExHypergraph<O, A>(lax::Hypergraph<O, A>);

#[verifier::external_type_specification]
pub struct ExOpenHypergraph<O, A>(lax::OpenHypergraph<O, A>);

/// The plain node identifiers of a boundary or wiring list.
pub open spec fn node_ids(s: Seq<lax::NodeId>) -> Seq<usize> {
    s.map_values(|n: lax::NodeId| n.0)
}

/// Labels of the source boundary ports, in order.
pub open spec fn src_lab<O, A>(f: OpenHypergraph<O, A>) -> Seq<O> {
    f.sources@.map_values(|n: lax::NodeId| f.hypergraph.nodes@[n.0 as int])
}

/// Labels of the target boundary ports, in order.
pub open spec fn tgt_lab<O, A>(f: OpenHypergraph<O, A>) -> Seq<O> {
    f.targets@.map_values(|n: lax::NodeId| f.hypergraph.nodes@[n.0 as int])
}

/// Every node mentioned by a wiring list is a real node.
pub open spec fn ids_in_range(s: Seq<lax::NodeId>, n: nat) -> bool {
    forall|k: int| 0 <= k < s.len() ==> (#[trigger] s[k]).0 < n
}

/// Internal coherence of a lax hypergraph: one adjacency record per box, and
/// every node id mentioned anywhere is in range.
pub open spec fn wf_hg<O, A>(h: lax::Hypergraph<O, A>) -> bool {
    &&& h.edges@.len() == h.adjacency@.len()
    &&& forall|e: int| 0 <= e < h.adjacency@.len()
            ==> ids_in_range((#[trigger] h.adjacency@[e]).sources@, h.nodes@.len())
                && ids_in_range(h.adjacency@[e].targets@, h.nodes@.len())
    &&& h.quotient.0@.len() == h.quotient.1@.len()
    &&& ids_in_range(h.quotient.0@, h.nodes@.len())
    &&& ids_in_range(h.quotient.1@, h.nodes@.len())
    &&& forall|i: int| 0 <= i < h.quotient.0@.len()
            ==> h.nodes@[(#[trigger] h.quotient.0@[i]).0 as int]
                == h.nodes@[h.quotient.1@[i].0 as int]
}

/// Internal coherence of a lax open hypergraph.
pub open spec fn wf_oh<O, A>(f: OpenHypergraph<O, A>) -> bool {
    &&& wf_hg(f.hypergraph)
    &&& ids_in_range(f.sources@, f.hypergraph.nodes@.len())
    &&& ids_in_range(f.targets@, f.hypergraph.nodes@.len())
}

/// Structural equality of two diagrams: every field coincides.
pub open spec fn oh_eq<O, A>(a: OpenHypergraph<O, A>, b: OpenHypergraph<O, A>) -> bool {
    &&& a.sources@ == b.sources@
    &&& a.targets@ == b.targets@
    &&& a.hypergraph.nodes@ == b.hypergraph.nodes@
    &&& a.hypergraph.edges@ == b.hypergraph.edges@
    &&& a.hypergraph.adjacency@ == b.hypergraph.adjacency@
    &&& a.hypergraph.quotient.0@ == b.hypergraph.quotient.0@
    &&& a.hypergraph.quotient.1@ == b.hypergraph.quotient.1@
}

/// Check that every id in a wiring list addresses one of `n` nodes.
pub fn ids_ok(v: &Vec<lax::NodeId>, n: usize) -> (r: bool)
    ensures
        r == ids_in_range(v@, n as nat),
{
    let mut k: usize = 0;
    while k < v.len()
        invariant
            0 <= k <= v@.len(),
            forall|j: int| 0 <= j < k ==> (#[trigger] v@[j]).0 < n,
        decreases v@.len() - k,
    {
        if v[k].0 >= n {
            assert(!ids_in_range(v@, n as nat));
            return false;
        }
        k = k + 1;
    }
    true
}

/// Check the internal coherence of a diagram.
pub fn check_wf<O: PartialEq, A>(f: &OpenHypergraph<O, A>) -> (r: bool)
    ensures
        r == wf_oh(*f),
{
    let n = f.hypergraph.nodes.len();
    if f.hypergraph.edges.len() != f.hypergraph.adjacency.len() {
        return false;
    }
    let mut e: usize = 0;
    while e < f.hypergraph.adjacency.len()
        invariant
            0 <= e <= f.hypergraph.adjacency@.len(),
            n == f.hypergraph.nodes@.len(),
            forall|j: int| 0 <= j < e
                ==> ids_in_range((#[trigger] f.hypergraph.adjacency@[j]).sources@, n as nat)
                    && ids_in_range(f.hypergraph.adjacency@[j].targets@, n as nat),
        decreases f.hypergraph.adjacency@.len() - e,
    {
        let hy = &f.hypergraph.adjacency[e];
        if !ids_ok(&hy.sources, n) || !ids_ok(&hy.targets, n) {
            return false;
        }
        e = e + 1;
    }
    if f.hypergraph.quotient.0.len() != f.hypergraph.quotient.1.len() {
        return false;
    }
    if !ids_ok(&f.hypergraph.quotient.0, n) || !ids_ok(&f.hypergraph.quotient.1, n) {
        return false;
    }
    let mut q: usize = 0;
    while q < f.hypergraph.quotient.0.len()
        invariant
            0 <= q <= f.hypergraph.quotient.0@.len(),
            n == f.hypergraph.nodes@.len(),
            f.hypergraph.quotient.0@.len() == f.hypergraph.quotient.1@.len(),
            ids_in_range(f.hypergraph.quotient.0@, n as nat),
            ids_in_range(f.hypergraph.quotient.1@, n as nat),
            forall|j: int| 0 <= j < q
                ==> f.hypergraph.nodes@[(#[trigger] f.hypergraph.quotient.0@[j]).0 as int]
                    == f.hypergraph.nodes@[f.hypergraph.quotient.1@[j].0 as int],
        decreases f.hypergraph.quotient.0@.len() - q,
    {
        let a = f.hypergraph.quotient.0[q].0;
        let b = f.hypergraph.quotient.1[q].0;
        if !label_eq_w(&f.hypergraph.nodes[a], &f.hypergraph.nodes[b]) {
            return false;
        }
        q = q + 1;
    }
    if !ids_ok(&f.sources, n) || !ids_ok(&f.targets, n) {
        return false;
    }
    true
}

/// Structurally equal diagrams have equal boundary labels.
pub proof fn lemma_oh_eq_boundaries<O, A>(a: OpenHypergraph<O, A>, b: OpenHypergraph<O, A>)
    requires
        oh_eq(a, b),
    ensures
        src_lab(a) == src_lab(b),
        tgt_lab(a) == tgt_lab(b),
        wf_oh(a) <==> wf_oh(b),
{
    assert(src_lab(a) =~= src_lab(b));
    assert(tgt_lab(a) =~= tgt_lab(b));
}

/// Relies on `Arrow::source` for lax open hypergraphs: it returns the labels
/// of the source boundary nodes, in order.
#[verifier::external_body]
pub(crate) fn labels_src_w<O: Clone + PartialEq, A: Clone>(f: &OpenHypergraph<O, A>) -> (r: Vec<O>)
    requires
        wf_oh(*f),
    ensures
        r@ == src_lab(*f),
{
    f.source()
}

/// Relies on `Arrow::target` for lax open hypergraphs: it returns the labels
/// of the target boundary nodes, in order.
#[verifier::external_body]
pub(crate) fn labels_tgt_w<O: Clone + PartialEq, A: Clone>(f: &OpenHypergraph<O, A>) -> (r: Vec<O>)
    requires
        wf_oh(*f),
    ensures
        r@ == tgt_lab(*f),
{
    f.target()
}

/// Relies on the label type's `PartialEq` comparing by value.
#[verifier::external_body]
pub(crate) fn label_eq_w<O: PartialEq>(a: &O, b: &O) -> (r: bool)
    ensures
        r == (a == b),
{
    a == b
}

/// Relies on `Vec`'s `PartialEq`: two vectors compare equal exactly when they
/// have equal elements in order.
#[verifier::external_body]
pub(crate) fn labels_eq_w<O: PartialEq>(a: &Vec<O>, b: &Vec<O>) -> (r: bool)
    ensures
        r == (a@ == b@),
{
    a == b
}

/// Relies on the derived `PartialEq` of lax `OpenHypergraph`, which compares
/// every field structurally.
#[verifier::external_body]
pub(crate) fn oh_eq_w<O: Clone + PartialEq, A: Clone + PartialEq>(
    a: &OpenHypergraph<O, A>,
    b: &OpenHypergraph<O, A>,
) -> (r: bool)
    ensures
        r == oh_eq(*a, *b),
{
    a == b
}

/// Relies on `Clone::clone` giving back the same value: true of the derived
/// clone of a lax diagram, and assumed of the label types it carries.
#[verifier::external_body]
pub(crate) fn clone_w<T: Clone>(x: &T) -> (r: T)
    ensures
        r == *x,
{
    x.clone()
}

/// `t` is `s` with every node id shifted up by `n`.
pub open spec fn shifted_ids(s: Seq<lax::NodeId>, t: Seq<lax::NodeId>, n: nat) -> bool {
    &&& t.len() == s.len()
    &&& forall|k: int| 0 <= k < s.len() ==> (#[trigger] t[k]).0 == s[k].0 + n
}

/// `t` is the box wiring `s` with every node id shifted up by `n`.
pub open spec fn shifted_edge(s: lax::Hyperedge, t: lax::Hyperedge, n: nat) -> bool {
    &&& shifted_ids(s.sources@, t.sources@, n)
    &&& shifted_ids(s.targets@, t.targets@, n)
}

/// `t` is `s1` followed by `s2` with every node id shifted up by `n`.
pub open spec fn concat_shifted_ids(
    s1: Seq<lax::NodeId>,
    s2: Seq<lax::NodeId>,
    t: Seq<lax::NodeId>,
    n: nat,
) -> bool {
    &&& t.len() == s1.len() + s2.len()
    &&& forall|k: int| 0 <= k < s1.len() ==> #[trigger] t[k] == s1[k]
    &&& forall|k: int| 0 <= k < s2.len() ==> (#[trigger] t[s1.len() + k]).0 == s2[k].0 + n
}

/// The parallel composite in full: nodes, boxes and wirings of `a` followed
/// by those of `b` with `b`'s node ids shifted past `a`'s; boundaries and
/// pending quotient concatenated the same way; so boundary labels
/// concatenate, and coherence is preserved.
pub open spec fn tensor_post<O, A>(
    a: OpenHypergraph<O, A>,
    b: OpenHypergraph<O, A>,
    r: OpenHypergraph<O, A>,
) -> bool {
    let n = a.hypergraph.nodes@.len();
    let en = a.hypergraph.adjacency@.len();
    &&& wf_oh(r)
    &&& r.hypergraph.nodes@ == a.hypergraph.nodes@ + b.hypergraph.nodes@
    &&& r.hypergraph.edges@ == a.hypergraph.edges@ + b.hypergraph.edges@
    &&& r.hypergraph.adjacency@.len() == en + b.hypergraph.adjacency@.len()
    &&& forall|e: int| 0 <= e < en
            ==> #[trigger] r.hypergraph.adjacency@[e] == a.hypergraph.adjacency@[e]
    &&& forall|e: int| 0 <= e < b.hypergraph.adjacency@.len()
            ==> shifted_edge(b.hypergraph.adjacency@[e], #[trigger] r.hypergraph.adjacency@[en + e], n)
    &&& concat_shifted_ids(a.sources@, b.sources@, r.sources@, n)
    &&& concat_shifted_ids(a.targets@, b.targets@, r.targets@, n)
    &&& concat_shifted_ids(
        a.hypergraph.quotient.0@,
        b.hypergraph.quotient.0@,
        r.hypergraph.quotient.0@,
        n,
    )
    &&& concat_shifted_ids(
        a.hypergraph.quotient.1@,
        b.hypergraph.quotient.1@,
        r.hypergraph.quotient.1@,
        n,
    )
    &&& src_lab(r) == src_lab(a) + src_lab(b)
    &&& tgt_lab(r) == tgt_lab(a) + tgt_lab(b)
}

/// Relies on `OpenHypergraph::tensor` (the `|` operator): it places the two
/// diagrams side by side, renumbering the right operand's nodes past the left
/// operand's, so boundaries concatenate.
#[verifier::external_body]
pub(crate) fn tensor_w<O: Clone + PartialEq, A: Clone>(
    a: &OpenHypergraph<O, A>,
    b: &OpenHypergraph<O, A>,
) -> (r: OpenHypergraph<O, A>)
    requires
        wf_oh(*a),
        wf_oh(*b),
    ensures
        tensor_post(*a, *b, r),
{
    a | b
}

/// The sequential composite in full: the parallel composite's nodes, boxes
/// and wirings, with `a`'s source boundary kept, `b`'s (shifted) target
/// boundary kept, and the glued boundary pairs — `a`'s targets against `b`'s
/// shifted sources, in order — appended to the pending quotient.
pub open spec fn compose_post<O, A>(
    a: OpenHypergraph<O, A>,
    b: OpenHypergraph<O, A>,
    r: OpenHypergraph<O, A>,
) -> bool {
    let n = a.hypergraph.nodes@.len();
    let en = a.hypergraph.adjacency@.len();
    let q0 = a.hypergraph.quotient.0@.len() + b.hypergraph.quotient.0@.len();
    &&& wf_oh(r)
    &&& r.hypergraph.nodes@ == a.hypergraph.nodes@ + b.hypergraph.nodes@
    &&& r.hypergraph.edges@ == a.hypergraph.edges@ + b.hypergraph.edges@
    &&& r.hypergraph.adjacency@.len() == en + b.hypergraph.adjacency@.len()
    &&& forall|e: int| 0 <= e < en
            ==> #[trigger] r.hypergraph.adjacency@[e] == a.hypergraph.adjacency@[e]
    &&& forall|e: int| 0 <= e < b.hypergraph.adjacency@.len()
            ==> shifted_edge(b.hypergraph.adjacency@[e], #[trigger] r.hypergraph.adjacency@[en + e], n)
    &&& r.sources@ == a.sources@
    &&& shifted_ids(b.targets@, r.targets@, n)
    &&& concat_shifted_ids(
        a.hypergraph.quotient.0@,
        b.hypergraph.quotient.0@,
        r.hypergraph.quotient.0@.take(q0 as int),
        n,
    )
    &&& concat_shifted_ids(
        a.hypergraph.quotient.1@,
        b.hypergraph.quotient.1@,
        r.hypergraph.quotient.1@.take(q0 as int),
        n,
    )
    &&& r.hypergraph.quotient.0@.len() == q0 + a.targets@.len()
    &&& r.hypergraph.quotient.1@.len() == q0 + b.sources@.len()
    &&& forall|k: int| 0 <= k < a.targets@.len()
            ==> #[trigger] r.hypergraph.quotient.0@[q0 + k] == a.targets@[k]
    &&& forall|k: int| 0 <= k < b.sources@.len()
            ==> (#[trigger] r.hypergraph.quotient.1@[q0 + k]).0 == b.sources@[k].0 + n
    &&& src_lab(r) == src_lab(a)
    &&& tgt_lab(r) == tgt_lab(b)
}

/// Relies on `Arrow::compose` (the `>>` operator): it is defined exactly when
/// the target boundary labels of the left operand equal the source boundary
/// labels of the right one, and then glues the diagrams along that boundary
/// by unifying the boundary node pairs through the pending quotient.
#[verifier::external_body]
pub(crate) fn compose_w<O: Clone + PartialEq, A: Clone>(
    a: &OpenHypergraph<O, A>,
    b: &OpenHypergraph<O, A>,
) -> (r: Option<OpenHypergraph<O, A>>)
    requires
        wf_oh(*a),
        wf_oh(*b),
    ensures
        r is Some <==> tgt_lab(*a) == src_lab(*b),
        r is Some ==> compose_post(*a, *b, r->Some_0),
{
    a >> b
}

/// What `singleton` returns: one box labelled `x`, with fresh source nodes
/// `0 .. s.len()` and fresh target nodes `s.len() .. s.len() + t.len()`, the
/// box's wiring and the diagram's boundary both being exactly those nodes.
pub open spec fn singleton_post<O, A>(x: A, s: Seq<O>, t: Seq<O>, r: OpenHypergraph<O, A>) -> bool {
    &&& r.hypergraph.nodes@ == s + t
    &&& r.hypergraph.edges@.len() == 1
    &&& r.hypergraph.edges@[0] == x
    &&& r.hypergraph.adjacency@.len() == 1
    &&& node_ids(r.hypergraph.adjacency@[0].sources@) == Seq::new(s.len(), |i: int| i as usize)
    &&& node_ids(r.hypergraph.adjacency@[0].targets@)
        == Seq::new(t.len(), |i: int| (s.len() + i) as usize)
    &&& node_ids(r.sources@) == node_ids(r.hypergraph.adjacency@[0].sources@)
    &&& node_ids(r.targets@) == node_ids(r.hypergraph.adjacency@[0].targets@)
    &&& r.hypergraph.quotient.0@.len() == 0
    &&& r.hypergraph.quotient.1@.len() == 0
}

/// Relies on `OpenHypergraph::singleton`: a diagram holding one box, wired to
/// fresh nodes labelled by `s` and `t`, with those nodes as its boundary.
#[verifier::external_body]
pub(crate) fn singleton_w<O, A>(x: A, s: Vec<O>, t: Vec<O>) -> (r: OpenHypergraph<O, A>)
    ensures
        singleton_post(x, s@, t@, r),
{
    OpenHypergraph::singleton(x, s, t)
}

/// Every flag is zero: the layering walk reached every box.
pub open spec fn all_visited(unv: Seq<usize>) -> bool {
    forall|q: int| 0 <= q < unv.len() ==> unv[q] == 0usize
}

/// Box `e` of `l` writes node `n`.
pub open spec fn produces<O, A>(l: OpenHypergraph<O, A>, e: int, n: usize) -> bool {
    exists|t: int|
        0 <= t < l.hypergraph.adjacency@[e].targets@.len()
            && (#[trigger] l.hypergraph.adjacency@[e].targets@[t]).0 == n
}

/// Box `e` of `l` reads node `n`.
pub open spec fn consumes<O, A>(l: OpenHypergraph<O, A>, e: int, n: usize) -> bool {
    exists|s: int|
        0 <= s < l.hypergraph.adjacency@[e].sources@.len()
            && (#[trigger] l.hypergraph.adjacency@[e].sources@[s]).0 == n
}

/// `(li, k)` addresses box `layers[li][k]`.
pub open spec fn layer_pos(layers: Seq<Vec<usize>>, li: int, k: int) -> bool {
    0 <= li < layers.len() && 0 <= k < layers[li]@.len()
}

/// Soundness of a layering: whenever one box reads a node that another box
/// writes, the writer sits in a strictly earlier layer.
pub open spec fn layers_sound<O, A>(l: OpenHypergraph<O, A>, layers: Seq<Vec<usize>>) -> bool {
    forall|li: int, k: int, lj: int, k2: int, n: usize|
        layer_pos(layers, li, k) && layer_pos(layers, lj, k2)
            && #[trigger] consumes(l, layers[li]@[k] as int, n)
            && #[trigger] produces(l, layers[lj]@[k2] as int, n) ==> lj < li
}

/// Box `e` appears at some layer position.
pub open spec fn in_layers(layers: Seq<Vec<usize>>, e: usize) -> bool {
    exists|li: int, k: int| layer_pos(layers, li, k) && (#[trigger] layers[li]@[k]) == e
}

/// A complete, sound layering of `l`'s boxes: every entry is a box id, no
/// box appears twice, every box appears, and whenever one box reads a node
/// another box writes, the writer sits in a strictly earlier layer.  Such a
/// layering exists exactly when the box-to-box dependencies are acyclic.
pub open spec fn complete_layering<O, A>(l: OpenHypergraph<O, A>, layers: Seq<Vec<usize>>) -> bool {
    &&& forall|li: int, k: int|
            layer_pos(layers, li, k) ==> (#[trigger] layers[li]@[k]) < l.hypergraph.edges@.len()
    &&& forall|li: int, k: int, lj: int, k2: int|
            layer_pos(layers, li, k) && layer_pos(layers, lj, k2) && (li, k) != (lj, k2)
                ==> #[trigger] layers[li]@[k] != #[trigger] layers[lj]@[k2]
    &&& forall|e: usize| e < l.hypergraph.edges@.len() ==> #[trigger] in_layers(layers, e)
    &&& layers_sound(l, layers)
}

/// What the layering snapshot guarantees.  `l` is the quotiented diagram,
/// `layers` the dependency layers of its boxes, `unv` a per-box flag that is
/// nonzero exactly for boxes the topological walk could not reach — which
/// happens exactly when no complete sound layering of `l` exists at all,
/// that is, when the box dependencies contain a cycle.
pub open spec fn layered_post<O, A>(
    f: OpenHypergraph<O, A>,
    l: OpenHypergraph<O, A>,
    layers: Seq<Vec<usize>>,
    unv: Seq<usize>,
) -> bool {
    &&& wf_oh(l)
    &&& l.hypergraph.quotient.0@.len() == 0
    &&& l.hypergraph.quotient.1@.len() == 0
    &&& unv.len() == l.hypergraph.edges@.len()
    &&& forall|li: int, k: int|
            layer_pos(layers, li, k) ==> (#[trigger] layers[li]@[k]) < l.hypergraph.edges@.len()
    &&& forall|li: int, k: int, lj: int, k2: int|
            layer_pos(layers, li, k) && layer_pos(layers, lj, k2) && (li, k) != (lj, k2)
                ==> #[trigger] layers[li]@[k] != #[trigger] layers[lj]@[k2]
    &&& forall|e: usize| e < l.hypergraph.edges@.len() ==> #[trigger] in_layers(layers, e)
    &&& forall|q: int| 0 <= q < unv.len() ==> unv[q] == 0usize || unv[q] == 1usize
    &&& all_visited(unv) ==> layers_sound(l, layers)
    &&& all_visited(unv) <==> exists|ls2: Seq<Vec<usize>>| #[trigger] complete_layering(l, ls2)
    &&& l.sources@.len() == f.sources@.len()
    &&& l.targets@.len() == f.targets@.len()
    &&& (f.hypergraph.quotient.0@.len() == 0 && f.hypergraph.quotient.1@.len() == 0) ==> {
        &&& l.sources@ == f.sources@
        &&& l.targets@ == f.targets@
        &&& l.hypergraph.nodes@ == f.hypergraph.nodes@
        &&& l.hypergraph.edges@ == f.hypergraph.edges@
        &&& l.hypergraph.adjacency@ == f.hypergraph.adjacency@
    }
}

/// The layering snapshot of a diagram.  Relies on three collaborator
/// operations that only make sense as one unit, since their shared input and
/// output is the opaque strict representation: `to_strict` applies the
/// pending quotient, `layered_operations` partitions the quotiented diagram's
/// boxes into dependency layers by a topological (Kahn-style) walk — flagging
/// every box it could not reach, which happens exactly when the boxes depend
/// on themselves in a cycle — and `from_strict` reads the quotiented diagram
/// back into the lax representation, preserving box and node numbering.  When
/// the input has no pending quotient, the quotient map is the identity and
/// the diagram comes back unchanged.  The coherence demanded of the input
/// includes that every pending quotient pair joins equally-labelled nodes:
/// `to_strict` checks this through the coequalizer and would panic
/// otherwise.
#[verifier::external_body]
pub(crate) fn layered_lax_w<O: Clone + PartialEq, A: Clone>(
    f: OpenHypergraph<O, A>,
) -> (r: (OpenHypergraph<O, A>, Vec<Vec<usize>>, Vec<usize>))
    requires
        wf_oh(f),
    ensures
        layered_post(f, r.0, r.1@, r.2@),
{
    let s = f.to_strict();
    let (layers, unvisited) = open_hypergraphs::strict::layer::layered_operations(&s);
    let l = OpenHypergraph::from_strict(s);
    let layers: Vec<Vec<usize>> = layers.into_iter().map(|x| x.0).collect();
    (l, layers, unvisited.0)
}

} // verus!
