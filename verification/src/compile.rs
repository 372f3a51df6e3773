//! Lowering an expression tree onto a tape.

use vstd::prelude::*;
use crate::expr::Expr;
use crate::graph::Graph;
use crate::tape::{lemma_grows_trans, Tape};

verus! {

impl Tape {
    /// The tape after `e` has been lowered onto it, with the slot of the
    /// root of `e`.
    ///
    /// A symbol adds nothing and yields the slot it names. An operation is
    /// lowered operands first, first operand before second, and then
    /// appended. Nothing is shared: every occurrence of a subtree gets
    /// slots of its own.
    pub open spec fn lower(self, e: Expr) -> (Tape, usize)
        decreases e,
    {
        match e {
            Expr::Symbol(i) => (self, i),
            Expr::Add(l, r) | Expr::Sub(l, r) | Expr::Mul(l, r) | Expr::Div(l, r) | Expr::Pow(
                l,
                r,
            ) => {
                let (t1, a) = self.lower(*l);
                let (t2, b) = t1.lower(*r);
                (t2.push_node(e.node(a, b)), t2.nodes.len() as usize)
            },
            Expr::Addf(_, x) | Expr::Mulf(_, x) => {
                let (t1, a) = self.lower(*x);
                (t1.push_node(e.node(a, 0)), t1.nodes.len() as usize)
            },
            Expr::Subf(x, _) | Expr::Powf(x, _) => {
                let (t1, a) = self.lower(*x);
                (t1.push_node(e.node(a, 0)), t1.nodes.len() as usize)
            },
            Expr::Powi(x, _) => {
                let (t1, a) = self.lower(*x);
                (t1.push_node(e.node(a, 0)), t1.nodes.len() as usize)
            },
            Expr::Neg(x) | Expr::Recip(x) | Expr::Exp(x) | Expr::Ln(x) | Expr::Sin(x) | Expr::Cos(
                x,
            ) | Expr::Tan(x) | Expr::Sinh(x) | Expr::Cosh(x) | Expr::Tanh(x) => {
                let (t1, a) = self.lower(*x);
                (t1.push_node(e.node(a, 0)), t1.nodes.len() as usize)
            },
        }
    }

    /// The tape after `e` has been lowered onto it and made the root.
    pub open spec fn compile(self, e: Expr) -> Tape {
        self.lower(e).0.with_root(self.lower(e).1)
    }
}

/// Symbols that name slots below `n` name slots below any `m` from `n` up.
pub proof fn lemma_symbols_below_mono(e: Expr, n: int, m: int)
    requires
        e.symbols_below(n),
        n <= m,
    ensures
        e.symbols_below(m),
    decreases e,
{
    match e {
        Expr::Symbol(_) => {},
        Expr::Add(l, r) | Expr::Sub(l, r) | Expr::Mul(l, r) | Expr::Div(l, r) | Expr::Pow(l, r) => {
            lemma_symbols_below_mono(*l, n, m);
            lemma_symbols_below_mono(*r, n, m);
        },
        Expr::Addf(_, x) | Expr::Mulf(_, x) => {
            lemma_symbols_below_mono(*x, n, m);
        },
        Expr::Subf(x, _) | Expr::Powf(x, _) => {
            lemma_symbols_below_mono(*x, n, m);
        },
        Expr::Powi(x, _) => {
            lemma_symbols_below_mono(*x, n, m);
        },
        Expr::Neg(x) | Expr::Recip(x) | Expr::Exp(x) | Expr::Ln(x) | Expr::Sin(x) | Expr::Cos(x)
        | Expr::Tan(x) | Expr::Sinh(x) | Expr::Cosh(x) | Expr::Tanh(x) => {
            lemma_symbols_below_mono(*x, n, m);
        },
    }
}

/// Lowers `expr` onto `graph`, operands before operations and first
/// operand before second, and returns the slot of its root.
pub fn parse_expr(expr: Expr, graph: &mut Graph) -> (index: usize)
    requires
        old(graph).wf(),
        expr.symbols_below(old(graph)@.len() as int),
    ensures
        (final(graph)@, index) == old(graph)@.lower(expr),
        index < final(graph)@.len(),
        final(graph)@.grows_from(old(graph)@),
        final(graph)@.root == old(graph)@.root,
        old(graph)@.rules_defined() && expr.rules_defined() ==> final(graph)@.rules_defined(),
        final(graph).wf(),
    decreases expr,
{
    let ghost n = old(graph)@.len() as int;
    match expr {
        Expr::Symbol(index) => index,
        Expr::Add(left, right) => {
            let left_index = parse_expr(*left, graph);
            let ghost t1 = graph@;
            proof {
                lemma_symbols_below_mono(*right, n, graph@.len() as int);
            }
            let right_index = parse_expr(*right, graph);
            proof {
                lemma_grows_trans(graph@, t1, old(graph)@);
            }
            graph.add(left_index, right_index)
        },
        Expr::Addf(num, right) => {
            let right_index = parse_expr(*right, graph);
            graph.addf(num, right_index)
        },
        Expr::Sub(left, right) => {
            let left_index = parse_expr(*left, graph);
            let ghost t1 = graph@;
            proof {
                lemma_symbols_below_mono(*right, n, graph@.len() as int);
            }
            let right_index = parse_expr(*right, graph);
            proof {
                lemma_grows_trans(graph@, t1, old(graph)@);
            }
            graph.sub(left_index, right_index)
        },
        Expr::Subf(left, num) => {
            let left_index = parse_expr(*left, graph);
            graph.subf(left_index, num)
        },
        Expr::Mul(left, right) => {
            let left_index = parse_expr(*left, graph);
            let ghost t1 = graph@;
            proof {
                lemma_symbols_below_mono(*right, n, graph@.len() as int);
            }
            let right_index = parse_expr(*right, graph);
            proof {
                lemma_grows_trans(graph@, t1, old(graph)@);
            }
            graph.mul(left_index, right_index)
        },
        Expr::Mulf(num, right) => {
            let right_index = parse_expr(*right, graph);
            graph.mulf(num, right_index)
        },
        Expr::Div(left, right) => {
            let left_index = parse_expr(*left, graph);
            let ghost t1 = graph@;
            proof {
                lemma_symbols_below_mono(*right, n, graph@.len() as int);
            }
            let right_index = parse_expr(*right, graph);
            proof {
                lemma_grows_trans(graph@, t1, old(graph)@);
            }
            graph.div(left_index, right_index)
        },
        Expr::Pow(left, right) => {
            let left_index = parse_expr(*left, graph);
            let ghost t1 = graph@;
            proof {
                lemma_symbols_below_mono(*right, n, graph@.len() as int);
            }
            let right_index = parse_expr(*right, graph);
            proof {
                lemma_grows_trans(graph@, t1, old(graph)@);
            }
            graph.pow(left_index, right_index)
        },
        Expr::Powf(left, right) => {
            let left_index = parse_expr(*left, graph);
            graph.powf(left_index, right)
        },
        Expr::Powi(left, right) => {
            let left_index = parse_expr(*left, graph);
            graph.powi(left_index, right)
        },
        Expr::Neg(expr) => {
            let index = parse_expr(*expr, graph);
            graph.neg(index)
        },
        Expr::Recip(expr) => {
            let index = parse_expr(*expr, graph);
            graph.recip(index)
        },
        Expr::Exp(expr) => {
            let index = parse_expr(*expr, graph);
            graph.exp(index)
        },
        Expr::Ln(expr) => {
            let index = parse_expr(*expr, graph);
            graph.ln(index)
        },
        Expr::Sin(expr) => {
            let index = parse_expr(*expr, graph);
            graph.sin(index)
        },
        Expr::Cos(expr) => {
            let index = parse_expr(*expr, graph);
            graph.cos(index)
        },
        Expr::Tan(expr) => {
            let index = parse_expr(*expr, graph);
            graph.tan(index)
        },
        Expr::Sinh(expr) => {
            let index = parse_expr(*expr, graph);
            graph.sinh(index)
        },
        Expr::Cosh(expr) => {
            let index = parse_expr(*expr, graph);
            graph.cosh(index)
        },
        Expr::Tanh(expr) => {
            let index = parse_expr(*expr, graph);
            graph.tanh(index)
        },
    }
}

} // verus!
