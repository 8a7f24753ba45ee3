//! Decomposition of a diagram into single static assignments.
//!
//! The collaborator's layering function partitions a diagram's boxes into
//! dependency layers (or flags boxes caught in a cycle); this module turns
//! each box into an [`SSA`] record and flattens the layers into one total
//! order in which every box appears after all boxes producing its sources.
use vstd::prelude::*;
use open_hypergraphs::lax::OpenHypergraph;
use crate::diagram::{
    all_visited, clone_w, consumes, layer_pos, layered_lax_w, layered_post, layers_sound,
    produces, wf_oh,
};

verus! {

/// A single static assignment of the form
/// `t0, t1, ... = op(s0, s1, ..., sn)`
/// where each `s_i`, `t_i` is a node id paired with its type label.
#[derive(Debug, Clone, PartialEq, Eq, Hash)]
pub struct SSA<O, A> {
    pub op: A,
    pub edge_id: usize,
    pub sources: Vec<(usize, O)>,
    pub targets: Vec<(usize, O)>,
}

/// Decomposition failure.
#[derive(Debug, Clone, PartialEq, Eq, Hash)]
pub enum SSAError {
    /// The diagram's box-to-box dependencies contain a cycle.
    Cycle,
}

/// The record `r` describes box `e` of diagram `l`: same label, and the
/// box's wiring paired with the labels of the wired nodes.
pub open spec fn record_matches<O, A>(l: OpenHypergraph<O, A>, r: SSA<O, A>, e: int) -> bool {
    &&& r.op == l.hypergraph.edges@[e]
    &&& r.edge_id == e
    &&& r.sources@.len() == l.hypergraph.adjacency@[e].sources@.len()
    &&& forall|k: int| 0 <= k < r.sources@.len()
            ==> (#[trigger] r.sources@[k]).0 == l.hypergraph.adjacency@[e].sources@[k].0
                && r.sources@[k].1
                    == l.hypergraph.nodes@[l.hypergraph.adjacency@[e].sources@[k].0 as int]
    &&& r.targets@.len() == l.hypergraph.adjacency@[e].targets@.len()
    &&& forall|k: int| 0 <= k < r.targets@.len()
            ==> (#[trigger] r.targets@[k]).0 == l.hypergraph.adjacency@[e].targets@[k].0
                && r.targets@[k].1
                    == l.hypergraph.nodes@[l.hypergraph.adjacency@[e].targets@[k].0 as int]
}

/// Record `r` reads node `n`.
pub open spec fn rec_reads<O, A>(r: SSA<O, A>, n: usize) -> bool {
    exists|k: int| 0 <= k < r.sources@.len() && (#[trigger] r.sources@[k]).0 == n
}

/// Record `r` writes node `n`.
pub open spec fn rec_writes<O, A>(r: SSA<O, A>, n: usize) -> bool {
    exists|k: int| 0 <= k < r.targets@.len() && (#[trigger] r.targets@[k]).0 == n
}

/// `(li, k)` addresses record `ls[li][k]`.
pub open spec fn row_pos<O, A>(ls: Seq<Vec<SSA<O, A>>>, li: int, k: int) -> bool {
    0 <= li < ls.len() && 0 <= k < ls[li]@.len()
}

/// Layer soundness carried over to records: a record reading a node sits in
/// a strictly later layer than any record writing it.
pub open spec fn ssa_layers_sound<O, A>(ls: Seq<Vec<SSA<O, A>>>) -> bool {
    forall|li: int, k: int, lj: int, k2: int, n: usize|
        row_pos(ls, li, k) && row_pos(ls, lj, k2) && #[trigger] rec_reads(ls[li]@[k], n)
            && #[trigger] rec_writes(ls[lj]@[k2], n) ==> lj < li
}

/// Soundness of a total order of records: every record appears strictly
/// after all records writing one of the nodes it reads.
pub open spec fn flat_sound<O, A>(recs: Seq<SSA<O, A>>) -> bool {
    forall|i: int, j: int, n: usize|
        0 <= i < recs.len() && 0 <= j < recs.len() && #[trigger] rec_reads(recs[i], n)
            && #[trigger] rec_writes(recs[j], n) ==> j < i
}

/// The layered record rows correspond, position for position, to the layered
/// box ids of diagram `l`.
pub open spec fn records_match_layers<O, A>(
    l: OpenHypergraph<O, A>,
    layers: Seq<Vec<usize>>,
    ls: Seq<Vec<SSA<O, A>>>,
) -> bool {
    &&& ls.len() == layers.len()
    &&& forall|li: int| 0 <= li < ls.len() ==> (#[trigger] ls[li])@.len() == layers[li]@.len()
    &&& forall|li: int, k: int|
            layer_pos(layers, li, k)
                ==> record_matches(l, (#[trigger] ls[li]@[k]), layers[li]@[k] as int)
}

/// The rows and flags are one layering snapshot of `f`: some quotiented
/// form `l` of `f` and some layering of `l` stand behind them.
pub open spec fn cyclic_decomposition_of<O, A>(
    f: OpenHypergraph<O, A>,
    ls: Seq<Vec<SSA<O, A>>>,
    unv: Seq<usize>,
) -> bool {
    exists|l: OpenHypergraph<O, A>, layers: Seq<Vec<usize>>|
        #[trigger] layered_post(f, l, layers, unv) && records_match_layers(l, layers, ls)
}

/// Reading and writing of a matching record coincide with the diagram's
/// wiring of the box it describes.
proof fn lemma_record_transfer<O, A>(l: OpenHypergraph<O, A>, r: SSA<O, A>, e: int)
    requires
        record_matches(l, r, e),
    ensures
        forall|n: usize| #[trigger] rec_reads(r, n) <==> consumes(l, e, n),
        forall|n: usize| #[trigger] rec_writes(r, n) <==> produces(l, e, n),
{
    assert forall|n: usize| #[trigger] rec_reads(r, n) <==> consumes(l, e, n) by {
        if rec_reads(r, n) {
            let k = choose|k: int| 0 <= k < r.sources@.len() && (#[trigger] r.sources@[k]).0 == n;
            assert(l.hypergraph.adjacency@[e].sources@[k].0 == n);
        }
        if consumes(l, e, n) {
            let k = choose|k: int|
                0 <= k < l.hypergraph.adjacency@[e].sources@.len()
                    && (#[trigger] l.hypergraph.adjacency@[e].sources@[k]).0 == n;
            assert((r.sources@[k]).0 == n);
        }
    }
    assert forall|n: usize| #[trigger] rec_writes(r, n) <==> produces(l, e, n) by {
        if rec_writes(r, n) {
            let k = choose|k: int| 0 <= k < r.targets@.len() && (#[trigger] r.targets@[k]).0 == n;
            assert(l.hypergraph.adjacency@[e].targets@[k].0 == n);
        }
        if produces(l, e, n) {
            let k = choose|k: int|
                0 <= k < l.hypergraph.adjacency@[e].targets@.len()
                    && (#[trigger] l.hypergraph.adjacency@[e].targets@[k]).0 == n;
            assert((r.targets@[k]).0 == n);
        }
    }
}

/// Build the record of box `e` of diagram `l`.
fn build_record<O: Clone, A: Clone>(l: &OpenHypergraph<O, A>, e: usize) -> (r: SSA<O, A>)
    requires
        wf_oh(*l),
        e < l.hypergraph.adjacency@.len(),
    ensures
        record_matches(*l, r, e as int),
{
    let hy = &l.hypergraph.adjacency[e];
    let op = clone_w(&l.hypergraph.edges[e]);
    let mut sources: Vec<(usize, O)> = Vec::new();
    let mut k: usize = 0;
    while k < hy.sources.len()
        invariant
            wf_oh(*l),
            e < l.hypergraph.adjacency@.len(),
            hy == &l.hypergraph.adjacency@[e as int],
            0 <= k <= hy.sources@.len(),
            sources@.len() == k,
            forall|j: int| 0 <= j < k
                ==> (#[trigger] sources@[j]).0 == l.hypergraph.adjacency@[e as int].sources@[j].0
                    && sources@[j].1 == l.hypergraph.nodes@[
                        l.hypergraph.adjacency@[e as int].sources@[j].0 as int
                    ],
        decreases hy.sources@.len() - k,
    {
        let id = hy.sources[k].0;
        sources.push((id, clone_w(&l.hypergraph.nodes[id])));
        k = k + 1;
    }
    let mut targets: Vec<(usize, O)> = Vec::new();
    let mut k2: usize = 0;
    while k2 < hy.targets.len()
        invariant
            wf_oh(*l),
            e < l.hypergraph.adjacency@.len(),
            hy == &l.hypergraph.adjacency@[e as int],
            0 <= k2 <= hy.targets@.len(),
            targets@.len() == k2,
            forall|j: int| 0 <= j < k2
                ==> (#[trigger] targets@[j]).0 == l.hypergraph.adjacency@[e as int].targets@[j].0
                    && targets@[j].1 == l.hypergraph.nodes@[
                        l.hypergraph.adjacency@[e as int].targets@[j].0 as int
                    ],
        decreases hy.targets@.len() - k2,
    {
        let id = hy.targets[k2].0;
        targets.push((id, clone_w(&l.hypergraph.nodes[id])));
        k2 = k2 + 1;
    }
    SSA { op, edge_id: e, sources, targets }
}

/// Parallel SSA decomposition, allowing cycles: one row of records per
/// dependency layer, plus the per-box flags of the layering walk (nonzero
/// exactly for boxes it could not reach).
pub fn parallel_ssa_cyclic<O: Clone + PartialEq, A: Clone>(f: OpenHypergraph<O, A>) -> (r: (
    Vec<Vec<SSA<O, A>>>,
    Vec<usize>,
))
    requires
        wf_oh(f),
    ensures
        all_visited(r.1@) ==> ssa_layers_sound(r.0@),
        cyclic_decomposition_of(f, r.0@, r.1@),
{
    let (l, layers, unv) = layered_lax_w(f);
    let ghost glayers = layers@;
    let mut out: Vec<Vec<SSA<O, A>>> = Vec::new();
    let mut li: usize = 0;
    while li < layers.len()
        invariant
            layered_post(f, l, glayers, unv@),
            glayers == layers@,
            0 <= li <= glayers.len(),
            out@.len() == li,
            forall|j: int| 0 <= j < li ==> (#[trigger] out@[j])@.len() == glayers[j]@.len(),
            forall|j: int, k: int|
                0 <= j < li && 0 <= k < glayers[j]@.len()
                    ==> record_matches(l, (#[trigger] out@[j]@[k]), glayers[j]@[k] as int),
        decreases glayers.len() - li,
    {
        let layer = &layers[li];
        let mut row: Vec<SSA<O, A>> = Vec::new();
        let mut k: usize = 0;
        while k < layer.len()
            invariant
                layered_post(f, l, glayers, unv@),
                glayers == layers@,
                0 <= li < glayers.len(),
                layer == &glayers[li as int],
                0 <= k <= layer@.len(),
                row@.len() == k,
                forall|k2: int|
                    0 <= k2 < k
                        ==> record_matches(l, (#[trigger] row@[k2]), glayers[li as int]@[k2] as int),
            decreases layer@.len() - k,
        {
            assert(layer_pos(glayers, li as int, k as int));
            let e = layer[k];
            row.push(build_record(&l, e));
            k = k + 1;
        }
        out.push(row);
        li = li + 1;
    }
    proof {
        assert(layered_post(f, l, glayers, unv@));
        assert(records_match_layers(l, glayers, out@));
        if all_visited(unv@) {
            assert(layers_sound(l, glayers));
            assert forall|a: int, k: int, b: int, k2: int, n: usize|
                row_pos(out@, a, k) && row_pos(out@, b, k2) && #[trigger] rec_reads(
                    out@[a]@[k],
                    n,
                ) && #[trigger] rec_writes(out@[b]@[k2], n) implies b < a by {
                assert(layer_pos(glayers, a, k));
                assert(layer_pos(glayers, b, k2));
                lemma_record_transfer(l, out@[a]@[k], glayers[a]@[k] as int);
                lemma_record_transfer(l, out@[b]@[k2], glayers[b]@[k2] as int);
                assert(consumes(l, glayers[a]@[k] as int, n));
                assert(produces(l, glayers[b]@[k2] as int, n));
            }
            assert(ssa_layers_sound(out@));
        }
        assert(cyclic_decomposition_of(f, out@, unv@));
    }
    (out, unv)
}

/// Is any flag nonzero?
fn any_nonzero(v: &Vec<usize>) -> (r: bool)
    ensures
        r == !all_visited(v@),
{
    let mut k: usize = 0;
    while k < v.len()
        invariant
            0 <= k <= v@.len(),
            forall|j: int| 0 <= j < k ==> v@[j] == 0usize,
        decreases v@.len() - k,
    {
        if v[k] != 0 {
            assert(!all_visited(v@));
            return true;
        }
        k = k + 1;
    }
    false
}

/// Parallel SSA decomposition of an *acyclic* diagram: one row of records
/// per dependency layer.  [`SSAError::Cycle`] returned on cycle detection.
pub fn parallel_ssa<O: Clone + PartialEq, A: Clone>(f: OpenHypergraph<O, A>) -> (r: Result<
    Vec<Vec<SSA<O, A>>>,
    SSAError,
>)
    requires
        wf_oh(f),
    ensures
        r matches Ok(ls) ==> ssa_layers_sound(ls@) && exists|unv: Seq<usize>|
            all_visited(unv) && #[trigger] cyclic_decomposition_of(f, ls@, unv),
        r matches Err(e) ==> e == SSAError::Cycle && exists|
            ls: Seq<Vec<SSA<O, A>>>,
            unv: Seq<usize>,
        | #[trigger] cyclic_decomposition_of(f, ls, unv) && !all_visited(unv),
{
    let (result, unvisited) = parallel_ssa_cyclic(f);
    if any_nonzero(&unvisited) {
        proof {
            assert(cyclic_decomposition_of(f, result@, unvisited@) && !all_visited(unvisited@));
        }
        Err(SSAError::Cycle)
    } else {
        proof {
            assert(all_visited(unvisited@) && cyclic_decomposition_of(f, result@, unvisited@));
        }
        Ok(result)
    }
}

/// The rows, flattened in order.
pub open spec fn flatten_rows_spec<O, A>(ls: Seq<Vec<SSA<O, A>>>) -> Seq<SSA<O, A>>
    decreases ls.len(),
{
    if ls.len() == 0 {
        Seq::empty()
    } else {
        ls[0]@ + flatten_rows_spec(ls.skip(1))
    }
}

/// Every flattened record sits in some row.
proof fn lemma_flatten_mem<O, A>(ls: Seq<Vec<SSA<O, A>>>, i: int)
    requires
        0 <= i < flatten_rows_spec(ls).len(),
    ensures
        exists|li: int, k: int| row_pos(ls, li, k) && flatten_rows_spec(ls)[i] == #[trigger] ls[li]@[k],
    decreases ls.len(),
{
    assert(ls.len() > 0);
    if i < ls[0]@.len() {
        assert(row_pos(ls, 0, i) && flatten_rows_spec(ls)[i] == ls[0]@[i]);
    } else {
        lemma_flatten_mem(ls.skip(1), i - ls[0]@.len());
        let (li, k) = choose|li: int, k: int|
            row_pos(ls.skip(1), li, k) && flatten_rows_spec(ls.skip(1))[i - ls[0]@.len()]
                == #[trigger] ls.skip(1)[li]@[k];
        assert(row_pos(ls, li + 1, k) && flatten_rows_spec(ls)[i] == ls[li + 1]@[k]);
    }
}

/// Records within one row of a sound layering are mutually
/// data-independent: no record of a row reads a node that a record of the
/// same row writes.  This is what makes a row safe to execute as a parallel
/// batch.
pub proof fn lemma_layer_independence<O, A>(
    ls: Seq<Vec<SSA<O, A>>>,
    li: int,
    k: int,
    k2: int,
    n: usize,
)
    requires
        ssa_layers_sound(ls),
        row_pos(ls, li, k),
        row_pos(ls, li, k2),
    ensures
        !(rec_reads(ls[li]@[k], n) && rec_writes(ls[li]@[k2], n)),
{
    if rec_reads(ls[li]@[k], n) && rec_writes(ls[li]@[k2], n) {
        assert(li < li);
    }
}

/// Flattening a sound layering in order yields a sound total order.
pub proof fn lemma_flatten_sound<O, A>(ls: Seq<Vec<SSA<O, A>>>)
    requires
        ssa_layers_sound(ls),
    ensures
        flat_sound(flatten_rows_spec(ls)),
    decreases ls.len(),
{
    if ls.len() == 0 {
        return;
    }
    let rest = ls.skip(1);
    assert forall|li: int, k: int, lj: int, k2: int, n: usize|
        row_pos(rest, li, k) && row_pos(rest, lj, k2) && #[trigger] rec_reads(rest[li]@[k], n)
            && #[trigger] rec_writes(rest[lj]@[k2], n) implies lj < li by {
        assert(rest[li]@[k] == ls[li + 1]@[k]);
        assert(rest[lj]@[k2] == ls[lj + 1]@[k2]);
        assert(row_pos(ls, li + 1, k) && row_pos(ls, lj + 1, k2));
    }
    lemma_flatten_sound(rest);
    let flat = flatten_rows_spec(ls);
    let head = ls[0]@;
    let tail = flatten_rows_spec(rest);
    assert forall|i: int, j: int, n: usize|
        0 <= i < flat.len() && 0 <= j < flat.len() && #[trigger] rec_reads(flat[i], n)
            && #[trigger] rec_writes(flat[j], n) implies j < i by {
        if i < head.len() {
            assert(flat[i] == ls[0]@[i]);
            if j < head.len() {
                assert(flat[j] == ls[0]@[j]);
                assert(false);
            } else {
                lemma_flatten_mem(rest, j - head.len());
                let (lj, k2) = choose|lj: int, k2: int|
                    row_pos(rest, lj, k2) && tail[j - head.len()] == #[trigger] rest[lj]@[k2];
                assert(flat[j] == tail[j - head.len()]);
                assert(rest[lj]@[k2] == ls[lj + 1]@[k2]);
                assert(rec_writes(ls[lj + 1]@[k2], n));
                assert(false);
            }
        } else {
            if j >= head.len() {
                assert(flat[i] == tail[i - head.len()]);
                assert(flat[j] == tail[j - head.len()]);
            }
        }
    }
}

/// Flatten the rows into one vector, preserving order.
fn flatten_rows<O, A>(ls: Vec<Vec<SSA<O, A>>>) -> (r: Vec<SSA<O, A>>)
    ensures
        r@ == flatten_rows_spec(ls@),
    decreases ls@.len(),
{
    let mut ls = ls;
    if ls.len() == 0 {
        return Vec::new();
    }
    let mut out = ls.remove(0);
    let ghost head = out@;
    let mut tail = flatten_rows(ls);
    out.append(&mut tail);
    out
}

/// Totally-ordered SSA decomposition of an *acyclic* diagram.
/// [`SSAError::Cycle`] returned on cycle detection.  On success, every
/// record appears strictly after all records writing a node it reads.
pub fn ssa<O: Clone + PartialEq, A: Clone>(f: OpenHypergraph<O, A>) -> (r: Result<
    Vec<SSA<O, A>>,
    SSAError,
>)
    requires
        wf_oh(f),
    ensures
        r matches Ok(recs) ==> flat_sound(recs@) && exists|ls: Seq<Vec<SSA<O, A>>>, unv: Seq<usize>|
            all_visited(unv) && #[trigger] cyclic_decomposition_of(f, ls, unv) && recs@
                == flatten_rows_spec(ls),
        r matches Err(e) ==> e == SSAError::Cycle && exists|
            ls: Seq<Vec<SSA<O, A>>>,
            unv: Seq<usize>,
        | #[trigger] cyclic_decomposition_of(f, ls, unv) && !all_visited(unv),
{
    match parallel_ssa(f) {
        Err(e) => Err(e),
        Ok(ls) => {
            proof {
                lemma_flatten_sound(ls@);
            }
            let ghost gls = ls@;
            let flat = flatten_rows(ls);
            proof {
                let unv = choose|unv: Seq<usize>|
                    all_visited(unv) && #[trigger] cyclic_decomposition_of(f, gls, unv);
                assert(all_visited(unv) && cyclic_decomposition_of(f, gls, unv) && flat@
                    == flatten_rows_spec(gls));
            }
            Ok(flat)
        },
    }
}

} // verus!
