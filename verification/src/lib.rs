//! Reverse-mode automatic differentiation on an append-only tape.
//!
//! A function of several scalars is written as an [`expr::Expr`] tree, lowered
//! onto a [`graph::Graph`], evaluated by a memoized forward pass and
//! differentiated by a backward pass that accumulates one partial derivative
//! per declared variable.
//!
//! Scalars are IEEE-754 binary64 numbers carried as their bit patterns. The
//! tape never computes on them itself: every elementary operation is a
//! [`arith::Prim`] request handed to an arithmetic unit that the caller
//! supplies, and every contract holds for every unit that answers each
//! request in one way.

pub mod arith;
pub mod node;
pub mod tape;
pub mod passes;
pub mod expr;
pub mod graph;
pub mod compile;
pub mod laws;
pub mod util;
