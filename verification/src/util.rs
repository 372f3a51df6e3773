//! Gradients in one call: of an expression at a point, and of a compiled
//! tape at a new point.

use vstd::prelude::*;
use crate::arith::{arith_of, computes, Prim, ONE};
use crate::expr::Expr;
use crate::graph::Graph;
use crate::laws::{lemma_bind_prefix, lemma_declare};
use crate::passes::{lemma_after_backward, lemma_after_forward};
use crate::tape::{lemma_bound_is_ready, lemma_extends_back_ready, lemma_grows_keeps, Tape};

verus! {

/// The symbols of `n` variables declared on an empty tape.
pub open spec fn symbols_of(n: nat) -> Seq<Expr> {
    Seq::new(n, |k: int| Expr::Symbol(k as usize))
}

/// The gradient of `e` at `xs`: declare one variable per scalar on an
/// empty tape, compile `e`, evaluate the root, propagate `1.0` from it,
/// and read the gradients of the variables.
pub open spec fn gradient_of(e: Expr, xs: Seq<u64>, f: spec_fn(Prim) -> u64) -> Seq<u64> {
    let c = Tape::empty().declare(xs).compile(e);
    let r = c.root->0 as int;
    c.after_forward(r, f).after_backward(r, ONE, f).gradients()
}

/// The state that [`gradient_cached`] computes on: every derived value and
/// gradient forgotten, then the first variables bound to `xs`.
pub open spec fn rebound(t: Tape, xs: Seq<u64>) -> Tape {
    t.reset().bind_all(xs)
}

/// The gradient of `expr` at the point `x`, one partial derivative per
/// scalar of `x`, in order. Symbol `k` of `expr` stands for `x[k]`.
pub fn gradient_of_expr<A: Fn(Prim) -> u64>(expr: Expr, x: &[u64], unit: &A) -> (grads: Vec<u64>)
    requires
        computes(*unit),
        expr.symbols_below(x@.len() as int),
        expr.rules_defined(),
    ensures
        grads@ == gradient_of(expr, x@, arith_of(*unit)),
        grads@.len() == x@.len(),
{
    let ghost f = arith_of(*unit);
    let mut graph = Graph::new();
    let mut k: usize = 0;
    while k < x.len()
        invariant
            k <= x@.len(),
            graph.wf(),
            graph@ == Tape::empty().declare_prefix(x@, k as nat),
        decreases x@.len() - k,
    {
        graph.var(x[k]);
        k += 1;
    }
    let ghost declared = graph@;
    proof {
        lemma_declare(x@, x@.len());
    }
    graph.compile(expr);
    let ghost compiled = graph@;
    proof {
        lemma_grows_keeps(compiled, declared);
        lemma_bound_is_ready(compiled, compiled.root->0 as int);
    }
    let _ = graph.forward(unit);
    proof {
        lemma_after_forward(compiled, compiled.root->0 as int, f);
        lemma_extends_back_ready(graph@, compiled, compiled.root->0 as int, f);
    }
    let ghost evaluated = graph@;
    graph.backward(unit);
    proof {
        lemma_after_backward(evaluated, compiled.root->0 as int, ONE, f);
        assert(graph@.vars == declared.vars);
    }
    graph.get_gradients()
}

/// The gradient at the point `x` of the function that `f` writes down.
///
/// `f` receives one symbol per scalar of `x` and returns the expression
/// of the function over them; it may use no other symbol, and no integer
/// power whose derivative rule cannot be applied.
pub fn gradient<F: Fn(&[Expr]) -> Expr, A: Fn(Prim) -> u64>(f: F, x: &[u64], unit: &A) -> (grads:
    Vec<u64>)
    requires
        computes(*unit),
        forall|symbols: &[Expr]| symbols@ == symbols_of(x@.len()) ==> #[trigger] f.requires((symbols,)),
        forall|symbols: &[Expr], e: Expr|
            symbols@ == symbols_of(x@.len()) && #[trigger] f.ensures((symbols,), e)
                ==> e.symbols_below(x@.len() as int) && e.rules_defined(),
    ensures
        grads@.len() == x@.len(),
        exists|symbols: &[Expr], e: Expr|
            symbols@ == symbols_of(x@.len()) && #[trigger] f.ensures((symbols,), e) && grads@
                == gradient_of(e, x@, arith_of(*unit)),
{
    let mut symbols: Vec<Expr> = Vec::new();
    let mut k: usize = 0;
    while k < x.len()
        invariant
            k <= x@.len(),
            symbols@ == symbols_of(k as nat),
        decreases x@.len() - k,
    {
        symbols.push(Expr::Symbol(k));
        k += 1;
    }
    let slice = symbols.as_slice();
    let result_expr = f(slice);
    let ghost e = result_expr;
    let grads = gradient_of_expr(result_expr, x, unit);
    proof {
        assert(f.ensures((slice,), e));
    }
    grads
}

/// The value and the gradient, at the point `x`, of the function compiled
/// on `g`: the tape is reset, its first variables are bound to `x`, the
/// root is evaluated and `1.0` is propagated from it.
pub fn gradient_cached<A: Fn(Prim) -> u64>(g: &mut Graph, x: &[u64], unit: &A) -> (out: (
    u64,
    Vec<u64>,
))
    requires
        old(g).wf(),
        computes(*unit),
        old(g)@.root is Some,
        x@.len() <= old(g)@.vars.len(),
        rebound(old(g)@, x@).ready(old(g)@.root->0 as int),
        rebound(old(g)@, x@).back_ready(old(g)@.root->0 as int),
    ensures
        out.0 == rebound(old(g)@, x@).value(old(g)@.root->0 as int, arith_of(*unit)),
        final(g)@ == rebound(old(g)@, x@).after_forward(
            old(g)@.root->0 as int,
            arith_of(*unit),
        ).after_backward(old(g)@.root->0 as int, ONE, arith_of(*unit)),
        out.1@ == final(g)@.gradients(),
        out.1@.len() == old(g)@.vars.len(),
        final(g).wf(),
{
    let ghost f = arith_of(*unit);
    let ghost r = old(g)@.root->0 as int;
    g.reset();
    proof {
        lemma_bind_prefix(g@, x@, x@.len());
    }
    g.subs_vars(x);
    let ghost start = g@;
    let result = g.forward(unit);
    proof {
        lemma_after_forward(start, r, f);
        lemma_extends_back_ready(g@, start, r, f);
    }
    g.backward(unit);
    proof {
        lemma_after_backward(start.after_forward(r, f), r, ONE, f);
    }
    let grads = g.get_gradients();
    (result, grads)
}

} // verus!
