//! Evaluation engine for proof terms of a diagrammatic rewriting calculus.
//!
//! A proof term is itself a diagram whose wires carry rewrite rules and whose
//! boxes apply a fixed vocabulary of inference rules.  Evaluating a proof term
//! decomposes it into a linear program (one operation per box, respecting data
//! dependencies) and executes that program, enforcing that every wire value is
//! produced exactly once and consumed exactly once.
pub mod diagram;
pub mod algebra;
pub mod ssa;
pub mod eval;

pub use algebra::{Cell, Proof, Rewrite, Type, premise};
pub use eval::{EvalErr, eval};
pub use ssa::{parallel_ssa, parallel_ssa_cyclic, ssa, SSA, SSAError};
