//! The evaluator: executes a closed proof term as a dataflow program.
//!
//! The proof term is decomposed into a total order of [`SSA`] records; a
//! linear store then threads produced-but-not-yet-consumed rewrites from
//! producers to consumers, enforcing that each wire value is produced exactly
//! once and consumed exactly once, and finally the values bound to the
//! term's designated output ports are read out in order.
//!
//! The specification [`evals_to`] pins the whole run: which record reads and
//! writes which node, in which order, which error aborts the run, and what
//! each combinator may return, relative to the contracts of the rewrite
//! algebra.
use vstd::prelude::*;
use std::collections::HashMap;
use crate::algebra::{Cell, Proof, Rewrite, Type};
use crate::diagram::{all_visited, compose_post, node_ids, oh_eq, src_lab, tensor_post, tgt_lab, wf_oh};
use crate::ssa::{cyclic_decomposition_of, flat_sound, flatten_rows_spec, ssa, SSA, SSAError};

verus! {

broadcast use vstd::std_specs::hash::group_hash_axioms;

/// Evaluation failure.  Each variant names the port (node) or box (edge) at
/// fault.
#[derive(Debug, Clone, PartialEq)]
pub enum EvalErr {
    /// A value was written to a port that already holds one: the term wires
    /// two boxes to produce the same port.
    MultipleWrite(usize),
    /// A value was read that was never produced or was already consumed.
    MultipleRead(usize),
    /// A box's declared arity or coarity disagrees with its wiring.
    ArityErr(usize),
    /// Sequential composition failed at this box: boundary mismatch.
    C1(usize),
    /// Vertical composition failed at this box: the diagrams at the joint
    /// are not structurally equal.
    C2(usize),
    /// The term's box-to-box dependencies contain a cycle.
    Cycle,
}

/// The node ids of a wiring list, in order.
pub open spec fn pair_ids<O>(s: Seq<(usize, O)>) -> Seq<usize> {
    s.map_values(|p: (usize, O)| p.0)
}

/// A result's vector, as a sequence.
pub open spec fn res_view<O, A>(r: Result<Vec<Rewrite<O, A>>, EvalErr>) -> Result<
    Seq<Rewrite<O, A>>,
    EvalErr,
> {
    match r {
        Ok(v) => Ok(v@),
        Err(e) => Err(e),
    }
}

/// Remove the values of `ids` from the store, in order.  The first id not
/// present in the store aborts the run, naming that port.
pub open spec fn read_args<O, A>(m: Map<usize, Rewrite<O, A>>, ids: Seq<usize>) -> Result<
    (Map<usize, Rewrite<O, A>>, Seq<Rewrite<O, A>>),
    EvalErr,
>
    decreases ids.len(),
{
    if ids.len() == 0 {
        Ok((m, Seq::empty()))
    } else {
        let n = ids[0];
        if !m.dom().contains(n) {
            Err(EvalErr::MultipleRead(n))
        } else {
            match read_args(m.remove(n), ids.skip(1)) {
                Ok((m2, args)) => Ok((m2, seq![m[n]] + args)),
                Err(e) => Err(e),
            }
        }
    }
}

/// Insert the values into the store at `ids`, pairwise in order.  An id that
/// already holds a value aborts the run, naming that port.
pub open spec fn write_vals<O, A>(
    m: Map<usize, Rewrite<O, A>>,
    ids: Seq<usize>,
    vals: Seq<Rewrite<O, A>>,
) -> Result<Map<usize, Rewrite<O, A>>, EvalErr>
    decreases ids.len(),
{
    if ids.len() == 0 {
        Ok(m)
    } else {
        let n = ids[0];
        if m.dom().contains(n) {
            Err(EvalErr::MultipleWrite(n))
        } else {
            write_vals(m.insert(n, vals[0]), ids.skip(1), vals.skip(1))
        }
    }
}

/// What dispatching one record to the rewrite algebra may produce, given the
/// argument values read for its source ports.  Error cases are exact; the
/// successful combinator results are pinned as far as the algebra's
/// contracts pin them.
pub open spec fn apply_rel<O, A>(
    op: SSA<Type, Cell<O, A>>,
    args: Seq<Rewrite<O, A>>,
    out: Result<Seq<Rewrite<O, A>>, EvalErr>,
) -> bool {
    match op.op {
        Cell::Copy => {
            if op.sources@.len() != 1 || args.len() != 1 {
                out == Err::<Seq<Rewrite<O, A>>, EvalErr>(EvalErr::ArityErr(op.edge_id))
            } else {
                out == Ok::<Seq<Rewrite<O, A>>, EvalErr>(
                    Seq::new(op.targets@.len(), |i: int| args[0]),
                )
            }
        },
        Cell::R(r0) => {
            if op.targets@.len() != 1 || op.sources@.len() != 0 || args.len() != 0 {
                out == Err::<Seq<Rewrite<O, A>>, EvalErr>(EvalErr::ArityErr(op.edge_id))
            } else {
                out == Ok::<Seq<Rewrite<O, A>>, EvalErr>(seq![r0])
            }
        },
        Cell::C0 => {
            if op.targets@.len() != 1 || op.sources@.len() != 2 || args.len() != 2 {
                out == Err::<Seq<Rewrite<O, A>>, EvalErr>(EvalErr::ArityErr(op.edge_id))
            } else {
                match out {
                    Ok(vals) => {
                        &&& vals.len() == 1
                        &&& vals[0].wf()
                        &&& tensor_post(
                            args[0].spec_source(),
                            args[1].spec_source(),
                            vals[0].spec_source(),
                        )
                        &&& tensor_post(
                            args[0].spec_target(),
                            args[1].spec_target(),
                            vals[0].spec_target(),
                        )
                    },
                    Err(_) => false,
                }
            }
        },
        Cell::C1 => {
            if op.targets@.len() != 1 || op.sources@.len() != 2 || args.len() != 2 {
                out == Err::<Seq<Rewrite<O, A>>, EvalErr>(EvalErr::ArityErr(op.edge_id))
            } else if tgt_lab(args[0].spec_source()) != src_lab(args[1].spec_source()) {
                out == Err::<Seq<Rewrite<O, A>>, EvalErr>(EvalErr::C1(op.edge_id))
            } else {
                match out {
                    Ok(vals) => {
                        &&& vals.len() == 1
                        &&& vals[0].wf()
                        &&& compose_post(
                            args[0].spec_source(),
                            args[1].spec_source(),
                            vals[0].spec_source(),
                        )
                        &&& compose_post(
                            args[0].spec_target(),
                            args[1].spec_target(),
                            vals[0].spec_target(),
                        )
                    },
                    Err(_) => false,
                }
            }
        },
        Cell::C2 => {
            if op.targets@.len() != 1 || op.sources@.len() != 2 || args.len() != 2 {
                out == Err::<Seq<Rewrite<O, A>>, EvalErr>(EvalErr::ArityErr(op.edge_id))
            } else if !oh_eq(args[0].spec_target(), args[1].spec_source()) {
                out == Err::<Seq<Rewrite<O, A>>, EvalErr>(EvalErr::C2(op.edge_id))
            } else {
                match out {
                    Ok(vals) => {
                        &&& vals.len() == 1
                        &&& vals[0].wf()
                        &&& vals[0].spec_source() == args[0].spec_source()
                        &&& vals[0].spec_target() == args[1].spec_target()
                    },
                    Err(_) => false,
                }
            }
        },
    }
}

/// The dispatch relation adds no nondeterminism of its own: two outcomes of
/// one dispatch on the same arguments agree on whether they fail, agree
/// exactly when they fail, and agree exactly on the values of constant and
/// copy boxes.  Only the structure of the three combinators' composite
/// diagrams is described by the algebra's contracts rather than pinned as a
/// value.
pub proof fn lemma_apply_outcome_agreement<O, A>(
    op: SSA<Type, Cell<O, A>>,
    args: Seq<Rewrite<O, A>>,
    out1: Result<Seq<Rewrite<O, A>>, EvalErr>,
    out2: Result<Seq<Rewrite<O, A>>, EvalErr>,
)
    requires
        apply_rel(op, args, out1),
        apply_rel(op, args, out2),
    ensures
        out1 is Err <==> out2 is Err,
        out1 is Err ==> out1 == out2,
        op.op is Copy || op.op is R ==> out1 == out2,
{
}

/// One run of the interpreter: starting from store `m`, execute `recs` in
/// order (read the arguments of each record, dispatch it, write its
/// results), then read out the values of the ports `tgts`, in order.  `out`
/// is a possible outcome of the run.
pub open spec fn evals_to<O, A>(
    recs: Seq<SSA<Type, Cell<O, A>>>,
    m: Map<usize, Rewrite<O, A>>,
    tgts: Seq<usize>,
    out: Result<Seq<Rewrite<O, A>>, EvalErr>,
) -> bool
    decreases recs.len(),
{
    if recs.len() == 0 {
        match read_args(m, tgts) {
            Ok((m2, vals)) => out == Ok::<Seq<Rewrite<O, A>>, EvalErr>(vals),
            Err(e) => out == Err::<Seq<Rewrite<O, A>>, EvalErr>(e),
        }
    } else {
        match read_args(m, pair_ids(recs[0].sources@)) {
            Err(e) => out == Err::<Seq<Rewrite<O, A>>, EvalErr>(e),
            Ok((m1, args)) => exists|res: Result<Seq<Rewrite<O, A>>, EvalErr>|
                #[trigger] apply_rel(recs[0], args, res) && match res {
                    Err(e) => out == Err::<Seq<Rewrite<O, A>>, EvalErr>(e),
                    Ok(vals) => match write_vals(m1, pair_ids(recs[0].targets@), vals) {
                        Err(e) => out == Err::<Seq<Rewrite<O, A>>, EvalErr>(e),
                        Ok(m2) => evals_to(recs.skip(1), m2, tgts, out),
                    },
                },
        }
    }
}

/// Remove the values of the source ports `srcs[k..]` from the store, in
/// order, failing on the first port whose value is absent.
fn read_from<O, A>(
    state: &mut HashMap<usize, Rewrite<O, A>>,
    srcs: &Vec<(usize, Type)>,
    k: usize,
) -> (r: Result<Vec<Rewrite<O, A>>, EvalErr>)
    requires
        k <= srcs@.len(),
    ensures
        match r {
            Ok(args) => read_args(old(state)@, pair_ids(srcs@).skip(k as int)) == Ok::<
                (Map<usize, Rewrite<O, A>>, Seq<Rewrite<O, A>>),
                EvalErr,
            >((final(state)@, args@)),
            Err(e) => read_args(old(state)@, pair_ids(srcs@).skip(k as int)) == Err::<
                (Map<usize, Rewrite<O, A>>, Seq<Rewrite<O, A>>),
                EvalErr,
            >(e),
        },
    decreases srcs@.len() - k,
{
    let ghost ids = pair_ids(srcs@).skip(k as int);
    if k == srcs.len() {
        proof {
            assert(ids.len() == 0);
        }
        return Ok(Vec::new());
    }
    proof {
        assert(ids[0] == srcs@[k as int].0);
    }
    let n = srcs[k].0;
    let v = match state.remove(&n) {
        Some(v) => v,
        None => {
            return Err(EvalErr::MultipleRead(n));
        },
    };
    proof {
        assert(state@ == old(state)@.remove(n));
        assert(ids.skip(1) =~= pair_ids(srcs@).skip(k + 1 as int));
    }
    match read_from(state, srcs, k + 1) {
        Ok(mut rest) => {
            let ghost grest = rest@;
            rest.insert(0, v);
            proof {
                assert(rest@ =~= seq![v] + grest);
            }
            Ok(rest)
        },
        Err(e) => Err(e),
    }
}

/// Insert the results into the store at the target ports `tgts[k..]`,
/// pairwise in order, failing on the first port that already holds a value.
fn write_to<O, A>(
    state: &mut HashMap<usize, Rewrite<O, A>>,
    tgts: &Vec<(usize, Type)>,
    vals: Vec<Rewrite<O, A>>,
    k: usize,
) -> (r: Result<(), EvalErr>)
    requires
        k <= tgts@.len(),
        vals@.len() == tgts@.len() - k,
    ensures
        match r {
            Ok(_) => write_vals(old(state)@, pair_ids(tgts@).skip(k as int), vals@) == Ok::<
                Map<usize, Rewrite<O, A>>,
                EvalErr,
            >(final(state)@),
            Err(e) => write_vals(old(state)@, pair_ids(tgts@).skip(k as int), vals@) == Err::<
                Map<usize, Rewrite<O, A>>,
                EvalErr,
            >(e),
        },
    decreases tgts@.len() - k,
{
    let ghost ids = pair_ids(tgts@).skip(k as int);
    let mut vals = vals;
    if k == tgts.len() {
        proof {
            assert(ids.len() == 0);
        }
        return Ok(());
    }
    proof {
        assert(ids[0] == tgts@[k as int].0);
    }
    let n = tgts[k].0;
    if state.contains_key(&n) {
        return Err(EvalErr::MultipleWrite(n));
    }
    let ghost gvals = vals@;
    let v = vals.remove(0);
    state.insert(n, v);
    proof {
        assert(vals@ =~= gvals.skip(1));
        assert(ids.skip(1) =~= pair_ids(tgts@).skip(k + 1 as int));
    }
    write_to(state, tgts, vals, k + 1)
}

/// `n` copies of a rewrite.
fn repeat_rewrite<O: Clone, A: Clone>(x: &Rewrite<O, A>, n: usize) -> (r: Vec<Rewrite<O, A>>)
    ensures
        r@ == Seq::new(n as nat, |i: int| *x),
{
    let mut out: Vec<Rewrite<O, A>> = Vec::new();
    let mut i: usize = 0;
    while i < n
        invariant
            0 <= i <= n,
            out@ == Seq::new(i as nat, |j: int| *x),
        decreases n - i,
    {
        out.push(x.clone());
        proof {
            assert(out@ =~= Seq::new((i + 1) as nat, |j: int| *x));
        }
        i = i + 1;
    }
    out
}

/// Check that a box's wiring and its actual arguments both have exactly `m`
/// sources, handing the arguments back unchanged.
fn get_exact_arity<O, A>(
    m: usize,
    op: &SSA<Type, Cell<O, A>>,
    args: Vec<Rewrite<O, A>>,
) -> (r: Result<Vec<Rewrite<O, A>>, EvalErr>)
    ensures
        match r {
            Ok(a) => a@ == args@ && op.sources@.len() == m && args@.len() == m,
            Err(e) => e == EvalErr::ArityErr(op.edge_id) && (op.sources@.len() != m
                || args@.len() != m),
        },
{
    if op.sources.len() != m {
        return Err(EvalErr::ArityErr(op.edge_id));
    }
    if args.len() != m {
        return Err(EvalErr::ArityErr(op.edge_id));
    }
    Ok(args)
}

/// Check that a box's wiring has exactly `n` targets.
fn check_exact_coarity<O, A>(n: usize, op: &SSA<Type, Cell<O, A>>) -> (r: Result<(), EvalErr>)
    ensures
        match r {
            Ok(_) => op.targets@.len() == n,
            Err(e) => e == EvalErr::ArityErr(op.edge_id) && op.targets@.len() != n,
        },
{
    if op.targets.len() != n {
        return Err(EvalErr::ArityErr(op.edge_id));
    }
    Ok(())
}

/// Dispatch one record to the rewrite algebra, per the calculus' dispatch
/// table: a `Copy` box fans its argument out to its targets, a constant box
/// yields its rewrite, and the three combinators compose their two
/// arguments.  Every dispatch first checks the box's wiring against the
/// profile the dispatch expects.
pub fn apply<O: Clone + PartialEq, A: Clone + PartialEq>(
    op: &SSA<Type, Cell<O, A>>,
    args: Vec<Rewrite<O, A>>,
) -> (r: Result<Vec<Rewrite<O, A>>, EvalErr>)
    ensures
        apply_rel(*op, args@, res_view(r)),
{
    let ghost gargs = args@;
    match &op.op {
        Cell::Copy => {
            let mut args = match get_exact_arity(1, op, args) {
                Ok(a) => a,
                Err(e) => return Err(e),
            };
            let x = match args.pop() {
                Some(x) => x,
                None => vstd::pervasive::unreached(),
            };
            let out = repeat_rewrite(&x, op.targets.len());
            proof {
                assert(out@ =~= Seq::new(op.targets@.len(), |i: int| gargs[0]));
            }
            Ok(out)
        },
        Cell::R(r0) => {
            match check_exact_coarity(1, op) {
                Ok(_) => {},
                Err(e) => return Err(e),
            }
            let _args = match get_exact_arity(0, op, args) {
                Ok(a) => a,
                Err(e) => return Err(e),
            };
            let mut out: Vec<Rewrite<O, A>> = Vec::new();
            out.push(r0.clone());
            proof {
                assert(out@ =~= seq![op.op->R_0]);
            }
            Ok(out)
        },
        Cell::C0 => {
            match check_exact_coarity(1, op) {
                Ok(_) => {},
                Err(e) => return Err(e),
            }
            let mut args = match get_exact_arity(2, op, args) {
                Ok(a) => a,
                Err(e) => return Err(e),
            };
            let b = match args.pop() {
                Some(b) => b,
                None => vstd::pervasive::unreached(),
            };
            let a = match args.pop() {
                Some(a) => a,
                None => vstd::pervasive::unreached(),
            };
            let v = a.c0(&b);
            let mut out: Vec<Rewrite<O, A>> = Vec::new();
            out.push(v);
            Ok(out)
        },
        Cell::C1 => {
            match check_exact_coarity(1, op) {
                Ok(_) => {},
                Err(e) => return Err(e),
            }
            let mut args = match get_exact_arity(2, op, args) {
                Ok(a) => a,
                Err(e) => return Err(e),
            };
            let b = match args.pop() {
                Some(b) => b,
                None => vstd::pervasive::unreached(),
            };
            let a = match args.pop() {
                Some(a) => a,
                None => vstd::pervasive::unreached(),
            };
            match a.c1(b) {
                Some(v) => {
                    let mut out: Vec<Rewrite<O, A>> = Vec::new();
                    out.push(v);
                    Ok(out)
                },
                None => Err(EvalErr::C1(op.edge_id)),
            }
        },
        Cell::C2 => {
            match check_exact_coarity(1, op) {
                Ok(_) => {},
                Err(e) => return Err(e),
            }
            let mut args = match get_exact_arity(2, op, args) {
                Ok(a) => a,
                Err(e) => return Err(e),
            };
            let b = match args.pop() {
                Some(b) => b,
                None => vstd::pervasive::unreached(),
            };
            let a = match args.pop() {
                Some(a) => a,
                None => vstd::pervasive::unreached(),
            };
            match a.c2(b) {
                Some(v) => {
                    let mut out: Vec<Rewrite<O, A>> = Vec::new();
                    out.push(v);
                    Ok(out)
                },
                None => Err(EvalErr::C2(op.edge_id)),
            }
        },
    }
}

/// The node ids of the term's designated output ports.
fn out_ports(v: &Vec<open_hypergraphs::lax::NodeId>) -> (r: Vec<usize>)
    ensures
        r@ == node_ids(v@),
{
    let mut out: Vec<usize> = Vec::new();
    let mut k: usize = 0;
    while k < v.len()
        invariant
            0 <= k <= v@.len(),
            out@ =~= node_ids(v@).take(k as int),
        decreases v@.len() - k,
    {
        out.push(v[k].0);
        proof {
            assert(out@ =~= node_ids(v@).take((k + 1) as int));
        }
        k = k + 1;
    }
    proof {
        assert(node_ids(v@).take(v@.len() as int) =~= node_ids(v@));
    }
    out
}

/// Remove the values of the output ports `ids[k..]` from the store, in
/// order, failing on the first port whose value is absent.
fn take_out<O, A>(state: &mut HashMap<usize, Rewrite<O, A>>, ids: &Vec<usize>, k: usize) -> (r:
    Result<Vec<Rewrite<O, A>>, EvalErr>)
    requires
        k <= ids@.len(),
    ensures
        match r {
            Ok(vals) => read_args(old(state)@, ids@.skip(k as int)) == Ok::<
                (Map<usize, Rewrite<O, A>>, Seq<Rewrite<O, A>>),
                EvalErr,
            >((final(state)@, vals@)),
            Err(e) => read_args(old(state)@, ids@.skip(k as int)) == Err::<
                (Map<usize, Rewrite<O, A>>, Seq<Rewrite<O, A>>),
                EvalErr,
            >(e),
        },
    decreases ids@.len() - k,
{
    if k == ids.len() {
        proof {
            assert(ids@.skip(k as int).len() == 0);
        }
        return Ok(Vec::new());
    }
    let n = ids[k];
    let v = match state.remove(&n) {
        Some(v) => v,
        None => {
            return Err(EvalErr::MultipleRead(n));
        },
    };
    proof {
        assert(state@ == old(state)@.remove(n));
        assert(ids@.skip(k as int).skip(1) =~= ids@.skip(k + 1 as int));
    }
    match take_out(state, ids, k + 1) {
        Ok(mut rest) => {
            let ghost grest = rest@;
            rest.insert(0, v);
            proof {
                assert(rest@ =~= seq![v] + grest);
            }
            Ok(rest)
        },
        Err(e) => Err(e),
    }
}

/// Evaluate a *closed* proof term, returning the rewrites bound to its
/// designated output ports, in output-port order.
///
/// The term must be closed — no free external inputs — and internally
/// coherent; this is the caller's obligation, not a recoverable error.  The
/// result is explained by [`evals_to`]: either the layering reported a
/// dependency cycle, or some dependency-sound total order of the term's
/// boxes ran to exactly this outcome.
pub fn eval<O: Clone + PartialEq, A: Clone + PartialEq>(term: Proof<O, A>) -> (r: Result<
    Vec<Rewrite<O, A>>,
    EvalErr,
>)
    requires
        wf_oh(term),
        term.sources@.len() == 0,
    ensures
        ({
            ||| (r == Err::<Vec<Rewrite<O, A>>, EvalErr>(EvalErr::Cycle) && exists|
                ls: Seq<Vec<SSA<Type, Cell<O, A>>>>,
                unv: Seq<usize>,
            | #[trigger] cyclic_decomposition_of(term, ls, unv) && !all_visited(unv))
            ||| exists|ls: Seq<Vec<SSA<Type, Cell<O, A>>>>, unv: Seq<usize>|
                {
                    &&& all_visited(unv)
                    &&& #[trigger] cyclic_decomposition_of(term, ls, unv)
                    &&& flat_sound(flatten_rows_spec(ls))
                    &&& evals_to(
                        flatten_rows_spec(ls),
                        Map::empty(),
                        node_ids(term.targets@),
                        res_view(r),
                    )
                }
        }),
{
    let ghost tgts = node_ids(term.targets@);
    let target_nodes = out_ports(&term.targets);
    let records = match ssa(term) {
        Ok(rs) => rs,
        Err(SSAError::Cycle) => {
            proof {
                let (cls, cunv): (Seq<Vec<SSA<Type, Cell<O, A>>>>, Seq<usize>) = choose|
                    cls: Seq<Vec<SSA<Type, Cell<O, A>>>>,
                    cunv: Seq<usize>,
                | #[trigger] cyclic_decomposition_of(term, cls, cunv) && !all_visited(cunv);
                assert(cyclic_decomposition_of(term, cls, cunv) && !all_visited(cunv));
            }
            return Err(EvalErr::Cycle);
        },
    };
    let ghost all = records@;
    let ghost (gls, gunv): (Seq<Vec<SSA<Type, Cell<O, A>>>>, Seq<usize>) = choose|
        ls: Seq<Vec<SSA<Type, Cell<O, A>>>>,
        unv: Seq<usize>,
    |
        all_visited(unv) && #[trigger] cyclic_decomposition_of(term, ls, unv) && all
            == flatten_rows_spec(ls);
    proof {
        assert(all_visited(gunv) && cyclic_decomposition_of(term, gls, gunv) && all
            == flatten_rows_spec(gls));
    }
    let mut state: HashMap<usize, Rewrite<O, A>> = HashMap::new();
    proof {
        assert(state@ =~= Map::<usize, Rewrite<O, A>>::empty());
        assert(all.skip(0) =~= all);
    }
    let mut i: usize = 0;
    while i < records.len()
        invariant
            0 <= i <= all.len(),
            records@ == all,
            flat_sound(all),
            all_visited(gunv),
            cyclic_decomposition_of(term, gls, gunv),
            all == flatten_rows_spec(gls),
            tgts == node_ids(term.targets@),
            forall|out: Result<Seq<Rewrite<O, A>>, EvalErr>|
                #[trigger] evals_to(all.skip(i as int), state@, tgts, out) ==> evals_to(
                    all,
                    Map::empty(),
                    tgts,
                    out,
                ),
        decreases all.len() - i,
    {
        let ghost m0 = state@;
        let ghost rest = all.skip(i as int);
        proof {
            assert(rest[0] == all[i as int]);
            assert(rest.skip(1) =~= all.skip(i + 1 as int));
        }
        let op = &records[i];
        let args = match read_from(&mut state, &op.sources, 0) {
            Ok(a) => a,
            Err(e) => {
                proof {
                    assert(pair_ids(op.sources@).skip(0) =~= pair_ids(op.sources@));
                    assert(evals_to(rest, m0, tgts, Err::<Seq<Rewrite<O, A>>, EvalErr>(e)));
                }
                return Err(e);
            },
        };
        let ghost m1 = state@;
        let ghost gargs = args@;
        proof {
            assert(pair_ids(op.sources@).skip(0) =~= pair_ids(op.sources@));
        }
        let results = match apply(op, args) {
            Ok(rs) => rs,
            Err(e) => {
                proof {
                    assert(read_args(m0, pair_ids(rest[0].sources@)) == Ok::<
                        (Map<usize, Rewrite<O, A>>, Seq<Rewrite<O, A>>),
                        EvalErr,
                    >((m1, gargs)));
                    assert(apply_rel(rest[0], gargs, Err::<Seq<Rewrite<O, A>>, EvalErr>(e)));
                    let ra = read_args(m0, pair_ids(rest[0].sources@));
                    let pargs = ra->Ok_0.1;
                    assert(pargs == gargs);
                    assert(apply_rel(rest[0], pargs, Err::<Seq<Rewrite<O, A>>, EvalErr>(e)));
                    assert(evals_to(rest, m0, tgts, Err::<Seq<Rewrite<O, A>>, EvalErr>(e)));
                }
                return Err(e);
            },
        };
        let ghost gres = results@;
        proof {
            assert(gres.len() == op.targets@.len());
        }
        match write_to(&mut state, &op.targets, results, 0) {
            Ok(_) => {},
            Err(e) => {
                proof {
                    assert(pair_ids(op.targets@).skip(0) =~= pair_ids(op.targets@));
                    assert(read_args(m0, pair_ids(rest[0].sources@)) == Ok::<
                        (Map<usize, Rewrite<O, A>>, Seq<Rewrite<O, A>>),
                        EvalErr,
                    >((m1, gargs)));
                    assert(apply_rel(rest[0], gargs, Ok::<Seq<Rewrite<O, A>>, EvalErr>(gres)));
                    assert(write_vals(m1, pair_ids(rest[0].targets@), gres) == Err::<
                        Map<usize, Rewrite<O, A>>,
                        EvalErr,
                    >(e));
                    let ra = read_args(m0, pair_ids(rest[0].sources@));
                    let pargs = ra->Ok_0.1;
                    assert(pargs == gargs);
                    assert(apply_rel(rest[0], pargs, Ok::<Seq<Rewrite<O, A>>, EvalErr>(gres)));
                    assert(evals_to(rest, m0, tgts, Err::<Seq<Rewrite<O, A>>, EvalErr>(e)));
                }
                return Err(e);
            },
        }
        proof {
            assert(pair_ids(op.targets@).skip(0) =~= pair_ids(op.targets@));
            assert forall|out: Result<Seq<Rewrite<O, A>>, EvalErr>|
                #[trigger] evals_to(all.skip(i + 1 as int), state@, tgts, out) implies evals_to(
                all,
                Map::empty(),
                tgts,
                out,
            ) by {
                assert(read_args(m0, pair_ids(rest[0].sources@)) == Ok::<
                    (Map<usize, Rewrite<O, A>>, Seq<Rewrite<O, A>>),
                    EvalErr,
                >((m1, gargs)));
                assert(apply_rel(rest[0], gargs, Ok::<Seq<Rewrite<O, A>>, EvalErr>(gres)));
                assert(write_vals(m1, pair_ids(rest[0].targets@), gres) == Ok::<
                    Map<usize, Rewrite<O, A>>,
                    EvalErr,
                >(state@));
                let ra = read_args(m0, pair_ids(rest[0].sources@));
                let pargs = ra->Ok_0.1;
                assert(pargs == gargs);
                assert(apply_rel(rest[0], pargs, Ok::<Seq<Rewrite<O, A>>, EvalErr>(gres)));
                assert(evals_to(rest, m0, tgts, out));
            }
        }
        i = i + 1;
    }
    proof {
        assert(all.skip(all.len() as int) =~= Seq::<SSA<Type, Cell<O, A>>>::empty());
    }
    let ghost m_end = state@;
    match take_out(&mut state, &target_nodes, 0) {
        Ok(vals) => {
            proof {
                assert(target_nodes@.skip(0) =~= tgts);
                assert(evals_to(
                    all.skip(all.len() as int),
                    m_end,
                    tgts,
                    Ok::<Seq<Rewrite<O, A>>, EvalErr>(vals@),
                ));
            }
            Ok(vals)
        },
        Err(e) => {
            proof {
                assert(target_nodes@.skip(0) =~= tgts);
                assert(evals_to(
                    all.skip(all.len() as int),
                    m_end,
                    tgts,
                    Err::<Seq<Rewrite<O, A>>, EvalErr>(e),
                ));
            }
            Err(e)
        },
    }
}

} // verus!
