//! What holds of the tape as a whole: that evaluating a compiled
//! expression is evaluating the expression, that a reset tape is as good as
//! a fresh one, that an evaluation is cached, and that gradients gather at
//! the variables whatever is cached.

use vstd::prelude::*;
use crate::arith::{Prim, ONE, ZERO};
use crate::expr::Expr;
use crate::node::Node;
use crate::passes::{lemma_after_forward, lemma_back_grads_extends, lemma_back_grads_len};
use crate::tape::{
    lemma_bound_is_ready, lemma_extends_value, lemma_grows_keeps, lemma_grows_trans,
    lemma_grows_value, lemma_push_node_wf, lemma_push_var_wf, Tape,
};

verus! {

/// An expression denotes the same scalar under two environments that
/// agree on the slots its symbols name.
pub proof fn lemma_eval_agrees(
    e: Expr,
    env1: spec_fn(int) -> u64,
    env2: spec_fn(int) -> u64,
    n: int,
    f: spec_fn(Prim) -> u64,
)
    requires
        e.symbols_below(n),
        forall|i: int| 0 <= i < n ==> #[trigger] env1(i) == env2(i),
    ensures
        e.eval(env1, f) == e.eval(env2, f),
    decreases e,
{
    match e {
        Expr::Symbol(_) => {},
        Expr::Add(l, r) | Expr::Sub(l, r) | Expr::Mul(l, r) | Expr::Div(l, r) | Expr::Pow(l, r) => {
            lemma_eval_agrees(*l, env1, env2, n, f);
            lemma_eval_agrees(*r, env1, env2, n, f);
        },
        Expr::Addf(_, x) | Expr::Mulf(_, x) => {
            lemma_eval_agrees(*x, env1, env2, n, f);
        },
        Expr::Subf(x, _) | Expr::Powf(x, _) => {
            lemma_eval_agrees(*x, env1, env2, n, f);
        },
        Expr::Powi(x, _) => {
            lemma_eval_agrees(*x, env1, env2, n, f);
        },
        Expr::Neg(x) | Expr::Recip(x) | Expr::Exp(x) | Expr::Ln(x) | Expr::Sin(x) | Expr::Cos(x)
        | Expr::Tan(x) | Expr::Sinh(x) | Expr::Cosh(x) | Expr::Tanh(x) => {
            lemma_eval_agrees(*x, env1, env2, n, f);
        },
    }
}

/// The slot appended for an operation has the value of the operation on
/// the values of its operand slots.
proof fn lemma_pushed_value(t: Tape, n: Node, f: spec_fn(Prim) -> u64)
    requires
        t.wf(),
        !(n is Var),
        Tape::node_ok(n, t.len() as int),
    ensures
        t.push_node(n).wf(),
        t.push_node(n).grows_from(t),
        t.push_node(n).root == t.root,
        t.push_node(n).value(t.len() as int, f) == n.value(
            t.operand_value(n.first(), f),
            t.operand_value(n.second(), f),
            f,
        ),
{
    let u = t.push_node(n);
    lemma_push_node_wf(t, n);
    assert(u.nodes[t.len() as int] == n);
    assert(u.values[t.len() as int] is None);
    match n.first() {
        Some(l) => {
            lemma_grows_value(u, t, l as int, f);
        },
        None => {},
    }
    match n.second() {
        Some(r) => {
            lemma_grows_value(u, t, r as int, f);
        },
        None => {},
    }
}

/// Lowering appends one slot per operation of the expression and nothing
/// else, keeps the invariant, and yields a slot whose value is the scalar
/// that the expression denotes when each symbol stands for the value of
/// the slot it names.
pub proof fn lemma_lower(t: Tape, e: Expr, f: spec_fn(Prim) -> u64)
    requires
        t.wf(),
        e.symbols_below(t.len() as int),
        t.len() + e.size() <= usize::MAX,
    ensures
        t.lower(e).0.wf(),
        t.lower(e).0.grows_from(t),
        t.lower(e).0.root == t.root,
        t.rules_defined() && e.rules_defined() ==> t.lower(e).0.rules_defined(),
        t.lower(e).0.len() == t.len() + e.size(),
        t.lower(e).1 < t.lower(e).0.len(),
        t.lower(e).0.value(t.lower(e).1 as int, f) == e.eval(|i: int| t.value(i, f), f),
    decreases e,
{
    let env = |i: int| t.value(i, f);
    match e {
        Expr::Symbol(i) => {},
        Expr::Add(l, r) | Expr::Sub(l, r) | Expr::Mul(l, r) | Expr::Div(l, r) | Expr::Pow(l, r) => {
            lemma_lower(t, *l, f);
            let (t1, a) = t.lower(*l);
            crate::compile::lemma_symbols_below_mono(*r, t.len() as int, t1.len() as int);
            lemma_lower(t1, *r, f);
            let (t2, b) = t1.lower(*r);
            lemma_grows_trans(t2, t1, t);
            let n = e.node(a, b);
            lemma_pushed_value(t2, n, f);
            lemma_grows_trans(t2.push_node(n), t2, t);
            lemma_grows_value(t2, t1, a as int, f);
            let env1 = |i: int| t1.value(i, f);
            assert forall|i: int| 0 <= i < t.len() implies #[trigger] env1(i) == env(i) by {
                lemma_grows_value(t1, t, i, f);
            }
            lemma_eval_agrees(*r, env1, env, t.len() as int, f);
        },
        Expr::Addf(_, x) | Expr::Mulf(_, x) => {
            lemma_lower(t, *x, f);
            let (t1, a) = t.lower(*x);
            let n = e.node(a, 0);
            lemma_pushed_value(t1, n, f);
            lemma_grows_trans(t1.push_node(n), t1, t);
        },
        Expr::Subf(x, _) | Expr::Powf(x, _) => {
            lemma_lower(t, *x, f);
            let (t1, a) = t.lower(*x);
            let n = e.node(a, 0);
            lemma_pushed_value(t1, n, f);
            lemma_grows_trans(t1.push_node(n), t1, t);
        },
        Expr::Powi(x, _) => {
            lemma_lower(t, *x, f);
            let (t1, a) = t.lower(*x);
            let n = e.node(a, 0);
            lemma_pushed_value(t1, n, f);
            lemma_grows_trans(t1.push_node(n), t1, t);
        },
        Expr::Neg(x) | Expr::Recip(x) | Expr::Exp(x) | Expr::Ln(x) | Expr::Sin(x) | Expr::Cos(x)
        | Expr::Tan(x) | Expr::Sinh(x) | Expr::Cosh(x) | Expr::Tanh(x) => {
            lemma_lower(t, *x, f);
            let (t1, a) = t.lower(*x);
            let n = e.node(a, 0);
            lemma_pushed_value(t1, n, f);
            lemma_grows_trans(t1.push_node(n), t1, t);
        },
    }
}

/// Declaring bound variables on the empty tape gives a tape of that many
/// slots, all of them bound variables in order, that has not been used.
pub proof fn lemma_declare(xs: Seq<u64>, n: nat)
    requires
        n <= xs.len(),
        n <= usize::MAX,
    ensures
        Tape::empty().declare_prefix(xs, n).wf(),
        Tape::empty().declare_prefix(xs, n).len() == n,
        Tape::empty().declare_prefix(xs, n).all_bound(),
        Tape::empty().declare_prefix(xs, n).pristine(),
        Tape::empty().declare_prefix(xs, n).rules_defined(),
        Tape::empty().declare_prefix(xs, n).root is None,
        Tape::empty().declare_prefix(xs, n).vars == Seq::new(n, |k: int| k as usize),
        Tape::empty().declare_prefix(xs, n).values == Seq::new(n, |k: int| Some(xs[k])),
    decreases n,
{
    if n > 0 {
        lemma_declare(xs, (n - 1) as nat);
        let t = Tape::empty().declare_prefix(xs, (n - 1) as nat);
        lemma_push_var_wf(t, Some(xs[n - 1]));
        let u = t.push_var(Some(xs[n - 1]));
        assert(u.vars =~= Seq::new(n, |k: int| k as usize));
        assert(u.values =~= Seq::new(n, |k: int| Some(xs[k])));
        assert forall|i: int| 0 <= i < u.nodes.len() && (#[trigger] u.nodes[i]) is Var implies u.values[i] is Some by {}
        assert forall|i: int| 0 <= i < u.grads.len() implies (#[trigger] u.grads[i]) == ZERO by {
            if i < n - 1 {
                assert(t.grads[i] == ZERO);
            }
        }
    } else {
        assert(Tape::empty().vars =~= Seq::new(0, |k: int| k as usize));
        assert(Tape::empty().values =~= Seq::new(0, |k: int| Some(xs[k])));
    }
}

/// Binding the first `n` variables gives each of them its scalar and
/// leaves every other slot, every gradient and the shape alone.
pub proof fn lemma_bind_prefix(t: Tape, xs: Seq<u64>, n: nat)
    requires
        t.wf(),
        n <= xs.len(),
        n <= t.vars.len(),
    ensures
        t.bind_prefix(xs, n).same_shape(t),
        t.bind_prefix(xs, n).wf(),
        t.bind_prefix(xs, n).grads == t.grads,
        forall|k: int| 0 <= k < n ==> t.bind_prefix(xs, n).values[(#[trigger] t.vars[k]) as int] == Some(xs[k]),
        forall|j: int|
            0 <= j < t.len() && (forall|k: int| 0 <= k < n ==> t.vars[k] != j) ==> (
            #[trigger] t.bind_prefix(xs, n).values[j]) == t.values[j],
    decreases n,
{
    if n > 0 {
        lemma_bind_prefix(t, xs, (n - 1) as nat);
        let p = t.bind_prefix(xs, (n - 1) as nat);
        let u = t.bind_prefix(xs, n);
        let v = t.vars[n - 1] as int;
        assert(t.vars[n - 1] < t.nodes.len());
        assert(u == p.with_value(v, xs[n - 1]));
        assert forall|k: int| 0 <= k < n implies u.values[(#[trigger] t.vars[k]) as int] == Some(xs[k]) by {
            if k < n - 1 {
                assert(t.vars[k] < t.vars[n - 1]);
                assert(p.values[t.vars[k] as int] == Some(xs[k]));
            }
        }
        assert forall|j: int|
            0 <= j < t.len() && (forall|k: int| 0 <= k < n ==> t.vars[k] != j) implies (
        #[trigger] u.values[j]) == t.values[j] by {
            assert(t.vars[n - 1] != j);
            assert(forall|k: int| 0 <= k < n - 1 ==> t.vars[k] != j);
            assert(p.values[j] == t.values[j]);
        }
    }
}

/// Which slot is the root changes the value of no slot.
proof fn lemma_root_value(t: Tape, r: usize, i: int, f: spec_fn(Prim) -> u64)
    ensures
        t.with_root(r).value(i, f) == t.value(i, f),
    decreases i,
{
    if 0 <= i < t.nodes.len() && i < t.values.len() && t.values[i] is None {
        let n = t.nodes[i];
        match n.first() {
            Some(l) => {
                if l < i {
                    lemma_root_value(t, r, l as int, f);
                }
            },
            None => {},
        }
        match n.second() {
            Some(l) => {
                if l < i {
                    lemma_root_value(t, r, l as int, f);
                }
            },
            None => {},
        }
    }
}

/// Evaluating a compiled expression is evaluating the expression.
///
/// Compile any expression onto any tape: the value of the root is the
/// scalar obtained by evaluating the arithmetic expression directly, with
/// each symbol standing for the value of the slot it names. Where every
/// variable is bound, the root can be evaluated; where moreover every
/// derivative rule of the tape and of the expression can be applied, a
/// backward pass can start from it.
pub proof fn law_forward_is_direct_evaluation(t: Tape, e: Expr, f: spec_fn(Prim) -> u64)
    requires
        t.wf(),
        e.symbols_below(t.len() as int),
        t.len() + e.size() <= usize::MAX,
    ensures
        t.compile(e).wf(),
        t.compile(e).root is Some,
        t.compile(e).value(t.compile(e).root->0 as int, f) == e.eval(|i: int| t.value(i, f), f),
        t.all_bound() ==> t.compile(e).ready(t.compile(e).root->0 as int),
        t.all_bound() && t.rules_defined() && e.rules_defined() ==> t.compile(e).back_ready(
            t.compile(e).root->0 as int,
        ),
{
    lemma_lower(t, e, f);
    let (u, r) = t.lower(e);
    let c = t.compile(e);
    lemma_root_value(u, r, r as int, f);
    if t.all_bound() {
        lemma_grows_keeps(u, t);
        lemma_bound_is_ready(c, r as int);
    }
}

/// A function of bound variables evaluates to what its expression says.
///
/// Declare one variable per scalar of `xs` on an empty tape and compile an
/// expression over them: the value of the root is the expression evaluated
/// directly with symbol `i` standing for `xs[i]`.
pub proof fn law_forward_of_bound_variables(xs: Seq<u64>, e: Expr, f: spec_fn(Prim) -> u64)
    requires
        e.symbols_below(xs.len() as int),
        xs.len() + e.size() <= usize::MAX,
    ensures
        ({
            let c = Tape::empty().declare(xs).compile(e);
            &&& c.wf()
            &&& c.root is Some
            &&& c.ready(c.root->0 as int)
            &&& e.rules_defined() ==> c.back_ready(c.root->0 as int)
            &&& c.value(c.root->0 as int, f) == e.eval(|i: int| xs[i], f)
        }),
{
    let t = Tape::empty().declare(xs);
    lemma_declare(xs, xs.len());
    law_forward_is_direct_evaluation(t, e, f);
    let env1 = |i: int| t.value(i, f);
    let env2 = |i: int| xs[i];
    assert forall|i: int| 0 <= i < xs.len() implies #[trigger] env1(i) == env2(i) by {
        assert(t.values[i] == Some(xs[i]));
    }
    lemma_eval_agrees(e, env1, env2, xs.len() as int, f);
}

/// Binding every variable makes every slot ready.
///
/// Reset a tape and bind all its variables: every variable then has a
/// value, so every slot can be evaluated, and a backward pass can start
/// from every slot if every derivative rule on the tape can be applied.
pub proof fn law_rebinding_all_makes_ready(t: Tape, xs: Seq<u64>, i: int)
    requires
        t.wf(),
        xs.len() == t.vars.len(),
        0 <= i < t.len(),
    ensures
        t.reset().bind_all(xs).wf(),
        t.reset().bind_all(xs).same_shape(t),
        t.reset().bind_all(xs).all_bound(),
        t.reset().bind_all(xs).ready(i),
        t.rules_defined() ==> t.reset().bind_all(xs).back_ready(i),
{
    let r = t.reset();
    assert(r.wf());
    lemma_bind_prefix(r, xs, xs.len());
    let a = r.bind_all(xs);
    assert forall|j: int| 0 <= j < a.nodes.len() && (#[trigger] a.nodes[j]) is Var implies a.values[j] is Some by {
        assert(t.vars.contains(j as usize));
        let k = choose|k: int| 0 <= k < t.vars.len() && t.vars[k] == j as usize;
        assert(a.values[t.vars[k] as int] == Some(xs[k]));
    }
    lemma_bound_is_ready(a, i);
}

/// A reset tape with its variables bound anew is a fresh tape.
///
/// Take a tape in any state and a tape of the same records, variables and
/// root that has never been run. Reset the first and bind the first
/// variables of both to `xs`. If the variables that `xs` does not reach
/// hold the same on both, the two tapes are then equal, so whatever is
/// computed on them, value and gradients, is equal too.
pub proof fn law_reset_rebind_is_fresh(used: Tape, fresh: Tape, xs: Seq<u64>, f: spec_fn(Prim) -> u64)
    requires
        used.wf(),
        fresh.wf(),
        fresh.pristine(),
        used.same_shape(fresh),
        xs.len() <= used.vars.len(),
        forall|k: int|
            xs.len() <= k < used.vars.len() ==> used.values[(#[trigger] used.vars[k]) as int]
                == fresh.values[used.vars[k] as int],
    ensures
        used.reset().bind_all(xs) == fresh.bind_all(xs),
        used.root matches Some(r) ==> {
            let a = used.reset().bind_all(xs);
            let b = fresh.bind_all(xs);
            &&& a.value(r as int, f) == b.value(r as int, f)
            &&& a.after_forward(r as int, f).after_backward(r as int, ONE, f).gradients()
                == b.after_forward(r as int, f).after_backward(r as int, ONE, f).gradients()
        },
{
    let r = used.reset();
    assert(r.wf());
    lemma_bind_prefix(r, xs, xs.len());
    lemma_bind_prefix(fresh, xs, xs.len());
    let a = r.bind_all(xs);
    let b = fresh.bind_all(xs);
    assert forall|j: int| 0 <= j < a.values.len() implies a.values[j] == b.values[j] by {
        if used.nodes[j] is Var {
            assert(used.vars.contains(j as usize));
            let k = choose|k: int| 0 <= k < used.vars.len() && used.vars[k] == j as usize;
            if k < xs.len() {
                assert(a.values[used.vars[k] as int] == Some(xs[k]));
                assert(b.values[fresh.vars[k] as int] == Some(xs[k]));
            } else {
                assert forall|m: int| 0 <= m < xs.len() implies used.vars[m] != j by {
                    assert(used.vars[m] < used.vars[k]);
                }
                assert(a.values[j] == r.values[j]);
                assert(b.values[j] == fresh.values[j]);
                assert(used.values[used.vars[k] as int] == fresh.values[used.vars[k] as int]);
            }
        } else {
            assert forall|k: int| 0 <= k < xs.len() implies used.vars[k] != j by {
                assert(used.nodes[used.vars[k] as int] is Var);
            }
            assert(a.values[j] == r.values[j]);
            assert(b.values[j] == fresh.values[j]);
            assert(!fresh.is_var(j));
        }
    }
    assert forall|j: int| 0 <= j < a.grads.len() implies a.grads[j] == b.grads[j] by {
        assert(fresh.grads[j] == ZERO);
    }
    assert(a.values =~= b.values);
    assert(a.grads =~= b.grads);
    assert(a =~= b);
}

/// Building a tape never runs it: the empty tape is unused, and it stays
/// so when a variable or an operation is appended, when an expression is
/// compiled, and when a variable is bound.
pub proof fn law_construction_is_pristine(t: Tape, v: Option<u64>, n: Node, e: Expr, i: int, x: u64)
    requires
        t.wf(),
        t.pristine(),
    ensures
        Tape::empty().pristine(),
        t.len() < usize::MAX ==> t.push_var(v).pristine(),
        !(n is Var) && Tape::node_ok(n, t.len() as int) ==> t.push_node(n).pristine(),
        e.symbols_below(t.len() as int) && t.len() + e.size() <= usize::MAX ==> t.compile(
            e,
        ).pristine() && t.compile(e).wf(),
        t.is_var(i) ==> t.with_value(i, x).pristine(),
{
    if t.len() < usize::MAX {
        let u = t.push_var(v);
        assert forall|j: int| 0 <= j < u.values.len() && !u.is_var(j) implies (#[trigger] u.values[j]) is None by {
            if j < t.len() {
                assert(u.nodes[j] == t.nodes[j]);
                assert(!t.is_var(j));
                assert(t.values[j] is None);
            }
        }
        assert forall|j: int| 0 <= j < u.grads.len() implies (#[trigger] u.grads[j]) == ZERO by {
            if j < t.len() {
                assert(t.grads[j] == ZERO);
            }
        }
    }
    if !(n is Var) && Tape::node_ok(n, t.len() as int) {
        let u = t.push_node(n);
        assert forall|j: int| 0 <= j < u.values.len() && !u.is_var(j) implies (#[trigger] u.values[j]) is None by {
            if j < t.len() {
                assert(u.nodes[j] == t.nodes[j]);
                assert(!t.is_var(j));
                assert(t.values[j] is None);
            }
        }
        assert forall|j: int| 0 <= j < u.grads.len() implies (#[trigger] u.grads[j]) == ZERO by {
            if j < t.len() {
                assert(t.grads[j] == ZERO);
            }
        }
    }
    if e.symbols_below(t.len() as int) && t.len() + e.size() <= usize::MAX {
        let f = |p: Prim| ZERO;
        lemma_lower(t, e, f);
        lemma_grows_keeps(t.lower(e).0, t);
        let c = t.compile(e);
        let u = t.lower(e).0;
        assert forall|j: int| 0 <= j < c.values.len() && !c.is_var(j) implies (#[trigger] c.values[j]) is None by {
            assert(!u.is_var(j));
            assert(u.values[j] is None);
        }
        assert forall|j: int| 0 <= j < c.grads.len() implies (#[trigger] c.grads[j]) == ZERO by {
            assert(u.grads[j] == ZERO);
        }
    }
    if t.is_var(i) {
        let u = t.with_value(i, x);
        assert forall|j: int| 0 <= j < u.values.len() && !u.is_var(j) implies (#[trigger] u.values[j]) is None by {
            assert(!t.is_var(j));
            assert(t.values[j] is None);
        }
        assert forall|j: int| 0 <= j < u.grads.len() implies (#[trigger] u.grads[j]) == ZERO by {
            assert(t.grads[j] == ZERO);
        }
    }
}

/// A slot that has been evaluated holds its value, and evaluating it
/// again changes nothing.
pub proof fn law_forward_is_cached(t: Tape, i: int, f: spec_fn(Prim) -> u64)
    requires
        t.wf(),
        0 <= i < t.len(),
    ensures
        t.after_forward(i, f).values[i] == Some(t.value(i, f)),
        t.after_forward(i, f).value(i, f) == t.value(i, f),
        t.after_forward(i, f).after_forward(i, f) == t.after_forward(i, f),
{
    lemma_after_forward(t, i, f);
    let u = t.after_forward(i, f);
    lemma_extends_value(u, t, i, f);
    if t.values[i] is None {
        assert(t.needs(i, i));
    }
    assert(u.after_forward(i, f).values =~= u.values);
}

/// A backward pass changes the gradient of no derived slot: gradients
/// gather at the variables.
pub proof fn law_backward_reaches_variables_only(
    t: Tape,
    gs: Seq<u64>,
    i: int,
    g: u64,
    f: spec_fn(Prim) -> u64,
    j: int,
)
    requires
        t.wf(),
        gs.len() == t.len(),
        0 <= j < t.len(),
        !t.is_var(j),
    ensures
        t.back_grads(gs, i, g, f).len() == gs.len(),
        t.back_grads(gs, i, g, f)[j] == gs[j],
    decreases i,
{
    lemma_back_grads_len(t, gs, i, g, f);
    if 0 <= i < t.nodes.len() {
        let n = t.nodes[i];
        assert(Tape::node_ok(n, i));
        if !(n is Var) {
            let d = n.pullback(
                t.operand_value(n.first(), f),
                t.operand_value(n.second(), f),
                g,
                f,
            );
            let g1 = match n.first() {
                Some(l) => t.back_grads(gs, l as int, d.0, f),
                None => gs,
            };
            match n.first() {
                Some(l) => {
                    law_backward_reaches_variables_only(t, gs, l as int, d.0, f, j);
                },
                None => {},
            }
            match n.second() {
                Some(r) => {
                    law_backward_reaches_variables_only(t, g1, r as int, d.1, f, j);
                },
                None => {},
            }
        }
    }
}

/// A backward pass needs no forward pass before it.
///
/// Whether or not the root, or any other slot, was evaluated first, a
/// backward pass leaves the same gradients.
pub proof fn law_backward_needs_no_forward(
    t: Tape,
    k: int,
    i: int,
    g: u64,
    f: spec_fn(Prim) -> u64,
)
    requires
        t.wf(),
    ensures
        t.after_forward(k, f).after_backward(i, g, f).grads == t.after_backward(i, g, f).grads,
{
    lemma_after_forward(t, k, f);
    lemma_back_grads_extends(t.after_forward(k, f), t, t.grads, i, g, f);
}

} // verus!
