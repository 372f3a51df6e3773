//! Facts about the two passes: what an evaluation computes, what a
//! backward pass evaluates, and that one step of either pass composes
//! into the whole.

use vstd::prelude::*;
use crate::arith::Prim;
use crate::tape::{lemma_extends_trans, lemma_extends_value, Tape};

verus! {

/// What an evaluation computes has no cached value and does not lie above
/// the slot evaluated.
pub proof fn lemma_needs_unknown(t: Tape, i: int, j: int)
    requires
        t.needs(i, j),
    ensures
        0 <= j <= i,
        t.values[j] is None,
    decreases i,
{
    if j != i {
        let n = t.nodes[i];
        if n.first() matches Some(l) && l < i && t.needs(l as int, j) {
            lemma_needs_unknown(t, n.first()->0 as int, j);
        } else {
            lemma_needs_unknown(t, n.second()->0 as int, j);
        }
    }
}

/// What is computed for a slot that is computed for `a` is computed for
/// `a`.
pub proof fn lemma_needs_trans(t: Tape, a: int, b: int, c: int)
    requires
        t.needs(a, b),
        t.needs(b, c),
    ensures
        t.needs(a, c),
    decreases a,
{
    if b != a {
        let n = t.nodes[a];
        if n.first() matches Some(l) && l < a && t.needs(l as int, b) {
            lemma_needs_trans(t, n.first()->0 as int, b, c);
        } else {
            lemma_needs_trans(t, n.second()->0 as int, b, c);
        }
    }
}

/// With more values cached, an evaluation computes no slot that it did
/// not compute before.
pub proof fn lemma_needs_shrinks(u: Tape, t: Tape, i: int, j: int, f: spec_fn(Prim) -> u64)
    requires
        u.extends(t, f),
        u.needs(i, j),
    ensures
        t.needs(i, j),
    decreases i,
{
    assert(u.values[i] is None);
    if j != i {
        let n = u.nodes[i];
        if n.first() matches Some(l) && l < i && u.needs(l as int, j) {
            lemma_needs_shrinks(u, t, n.first()->0 as int, j, f);
        } else {
            lemma_needs_shrinks(u, t, n.second()->0 as int, j, f);
        }
    }
}

/// What an evaluation computed before more was cached is still to compute
/// or is cached.
pub proof fn lemma_needs_split(u: Tape, t: Tape, i: int, j: int, f: spec_fn(Prim) -> u64)
    requires
        u.settles(t, f),
        t.needs(i, j),
    ensures
        u.needs(i, j) || u.values[j] is Some,
    decreases i,
{
    if u.values[i] is Some {
    } else if j != i {
        let n = t.nodes[i];
        if n.first() matches Some(l) && l < i && t.needs(l as int, j) {
            lemma_needs_split(u, t, n.first()->0 as int, j, f);
        } else {
            lemma_needs_split(u, t, n.second()->0 as int, j, f);
        }
    }
}

/// What a backward pass evaluates has no cached value.
pub proof fn lemma_back_needs_unknown(t: Tape, i: int, j: int)
    requires
        t.back_needs(i, j),
    ensures
        0 <= j < t.values.len(),
        t.values[j] is None,
    decreases i,
{
    let n = t.nodes[i];
    if n.first() matches Some(l) && n.reads_operands() && t.needs(l as int, j) {
        lemma_needs_unknown(t, n.first()->0 as int, j);
    } else if n.second() matches Some(r) && n.reads_operands() && t.needs(r as int, j) {
        lemma_needs_unknown(t, n.second()->0 as int, j);
    } else if n.first() matches Some(l) && l < i && t.back_needs(l as int, j) {
        lemma_back_needs_unknown(t, n.first()->0 as int, j);
    } else {
        lemma_back_needs_unknown(t, n.second()->0 as int, j);
    }
}

/// What is computed for a slot that a backward pass evaluates is
/// evaluated by that pass.
pub proof fn lemma_back_needs_trans(t: Tape, k: int, a: int, b: int)
    requires
        t.back_needs(k, a),
        t.needs(a, b),
    ensures
        t.back_needs(k, b),
    decreases k,
{
    let n = t.nodes[k];
    if n.first() matches Some(l) && n.reads_operands() && t.needs(l as int, a) {
        lemma_needs_trans(t, n.first()->0 as int, a, b);
    } else if n.second() matches Some(r) && n.reads_operands() && t.needs(r as int, a) {
        lemma_needs_trans(t, n.second()->0 as int, a, b);
    } else if n.first() matches Some(l) && l < k && t.back_needs(l as int, a) {
        lemma_back_needs_trans(t, n.first()->0 as int, a, b);
    } else {
        lemma_back_needs_trans(t, n.second()->0 as int, a, b);
    }
}

/// With more values cached, a backward pass evaluates no slot that it did
/// not evaluate before.
pub proof fn lemma_back_needs_shrinks(u: Tape, t: Tape, i: int, j: int, f: spec_fn(Prim) -> u64)
    requires
        u.extends(t, f),
        u.back_needs(i, j),
    ensures
        t.back_needs(i, j),
    decreases i,
{
    let n = u.nodes[i];
    if n.first() matches Some(l) && n.reads_operands() && u.needs(l as int, j) {
        lemma_needs_shrinks(u, t, n.first()->0 as int, j, f);
    } else if n.second() matches Some(r) && n.reads_operands() && u.needs(r as int, j) {
        lemma_needs_shrinks(u, t, n.second()->0 as int, j, f);
    } else if n.first() matches Some(l) && l < i && u.back_needs(l as int, j) {
        lemma_back_needs_shrinks(u, t, n.first()->0 as int, j, f);
    } else {
        lemma_back_needs_shrinks(u, t, n.second()->0 as int, j, f);
    }
}

/// What a backward pass evaluated before more was cached is still to
/// evaluate or is cached.
pub proof fn lemma_back_needs_split(u: Tape, t: Tape, i: int, j: int, f: spec_fn(Prim) -> u64)
    requires
        u.settles(t, f),
        t.back_needs(i, j),
    ensures
        u.back_needs(i, j) || u.values[j] is Some,
    decreases i,
{
    let n = t.nodes[i];
    if n.first() matches Some(l) && n.reads_operands() && t.needs(l as int, j) {
        lemma_needs_split(u, t, n.first()->0 as int, j, f);
    } else if n.second() matches Some(r) && n.reads_operands() && t.needs(r as int, j) {
        lemma_needs_split(u, t, n.second()->0 as int, j, f);
    } else if n.first() matches Some(l) && l < i && t.back_needs(l as int, j) {
        lemma_back_needs_split(u, t, n.first()->0 as int, j, f);
    } else {
        lemma_back_needs_split(u, t, n.second()->0 as int, j, f);
    }
}

/// An evaluation on top of cached values only caches more, and caches
/// with every value all that the value rests on.
pub proof fn lemma_forward_settles(u: Tape, t: Tape, k: int, f: spec_fn(Prim) -> u64)
    requires
        u.settles(t, f),
    ensures
        u.after_forward(k, f).extends(u, f),
        u.after_forward(k, f).settles(t, f),
        u.after_forward(k, f).grads == u.grads,
{
    let w = u.after_forward(k, f);
    assert forall|j: int| 0 <= j < w.values.len() implies (#[trigger] w.values[j]) == u.values[j]
        || (u.values[j] is None && w.values[j] == Some(u.value(j, f))) by {
        if u.needs(k, j) {
            lemma_needs_unknown(u, k, j);
        }
    }
    lemma_extends_trans(w, u, t, f);
    assert forall|a: int, b: int| w.values[a] is Some && #[trigger] t.needs(a, b) implies w.values[b] is Some by {
        lemma_needs_unknown(t, a, b);
        if u.values[a] is Some {
            assert(u.values[b] is Some);
        } else {
            assert(u.needs(k, a));
            lemma_needs_split(u, t, a, b, f);
            if u.needs(a, b) {
                lemma_needs_trans(u, k, a, b);
            }
        }
    }
}

/// A tape caches its own values, trivially.
pub proof fn lemma_settles_itself(t: Tape, f: spec_fn(Prim) -> u64)
    ensures
        t.settles(t, f),
{
}

/// A forward pass only caches values: the tape keeps its shape and its
/// gradients, and each slot holds what it held or, newly, its value.
pub proof fn lemma_after_forward(t: Tape, i: int, f: spec_fn(Prim) -> u64)
    ensures
        t.after_forward(i, f).settles(t, f),
        t.after_forward(i, f).grads == t.grads,
        t.after_operands(i, f).settles(t, f),
        t.after_operands(i, f).grads == t.grads,
{
    lemma_settles_itself(t, f);
    lemma_forward_settles(t, t, i, f);
    let n = t.nodes[i];
    let t1 = match n.first() {
        Some(l) => t.after_forward(l as int, f),
        None => t,
    };
    match n.first() {
        Some(l) => {
            lemma_forward_settles(t, t, l as int, f);
        },
        None => {},
    }
    match n.second() {
        Some(r) => {
            lemma_forward_settles(t1, t, r as int, f);
        },
        None => {},
    }
}

/// Evaluating the operands of a slot and storing its value is evaluating
/// the slot.
pub proof fn lemma_forward_step(t: Tape, i: int, f: spec_fn(Prim) -> u64)
    requires
        t.wf(),
        0 <= i < t.len(),
        t.values[i] is None,
    ensures
        t.after_operands(i, f).with_value(i, t.value(i, f)) == t.after_forward(i, f),
{
    let n = t.nodes[i];
    assert(Tape::node_ok(n, i));
    let t1 = match n.first() {
        Some(l) => t.after_forward(l as int, f),
        None => t,
    };
    lemma_settles_itself(t, f);
    match n.first() {
        Some(l) => {
            lemma_forward_settles(t, t, l as int, f);
        },
        None => {},
    }
    let done = t.after_operands(i, f).with_value(i, t.value(i, f));
    let target = t.after_forward(i, f);
    assert forall|j: int| 0 <= j < t.len() implies done.values[j] == target.values[j] by {
        lemma_extends_value(t1, t, j, f);
        if j == i {
            assert(t.needs(i, i));
        } else {
            match n.second() {
                Some(r) => {
                    if t1.needs(r as int, j) {
                        lemma_needs_shrinks(t1, t, r as int, j, f);
                    }
                    if t.needs(r as int, j) {
                        lemma_needs_split(t1, t, r as int, j, f);
                        lemma_needs_unknown(t, r as int, j);
                    }
                },
                None => {},
            }
            if t.needs(i, j) {
                lemma_needs_unknown(t, i, j);
            }
        }
    }
    assert(done.values =~= target.values);
}

/// A backward pass leaves the number of gradients as it is.
pub proof fn lemma_back_grads_len(t: Tape, gs: Seq<u64>, i: int, g: u64, f: spec_fn(Prim) -> u64)
    requires
        gs.len() == t.nodes.len(),
    ensures
        t.back_grads(gs, i, g, f).len() == gs.len(),
    decreases i,
{
    if 0 <= i < t.nodes.len() {
        let n = t.nodes[i];
        if !(n is Var) {
            let d = n.pullback(
                t.operand_value(n.first(), f),
                t.operand_value(n.second(), f),
                g,
                f,
            );
            let g1 = match n.first() {
                Some(l) => if l < i {
                    t.back_grads(gs, l as int, d.0, f)
                } else {
                    gs
                },
                None => gs,
            };
            match n.first() {
                Some(l) => {
                    if l < i {
                        lemma_back_grads_len(t, gs, l as int, d.0, f);
                    }
                },
                None => {},
            }
            match n.second() {
                Some(r) => {
                    if r < i {
                        lemma_back_grads_len(t, g1, r as int, d.1, f);
                    }
                },
                None => {},
            }
        }
    }
}

/// The gradients of a backward pass do not depend on what is cached.
pub proof fn lemma_back_grads_extends(
    u: Tape,
    t: Tape,
    gs: Seq<u64>,
    i: int,
    g: u64,
    f: spec_fn(Prim) -> u64,
)
    requires
        u.extends(t, f),
    ensures
        u.back_grads(gs, i, g, f) == t.back_grads(gs, i, g, f),
    decreases i,
{
    if 0 <= i < t.nodes.len() {
        let n = t.nodes[i];
        if !(n is Var) {
            match n.first() {
                Some(l) => {
                    lemma_extends_value(u, t, l as int, f);
                },
                None => {},
            }
            match n.second() {
                Some(r) => {
                    lemma_extends_value(u, t, r as int, f);
                },
                None => {},
            }
            let d = n.pullback(
                t.operand_value(n.first(), f),
                t.operand_value(n.second(), f),
                g,
                f,
            );
            let g1 = match n.first() {
                Some(l) => if l < i {
                    t.back_grads(gs, l as int, d.0, f)
                } else {
                    gs
                },
                None => gs,
            };
            match n.first() {
                Some(l) => {
                    if l < i {
                        lemma_back_grads_extends(u, t, gs, l as int, d.0, f);
                    }
                },
                None => {},
            }
            match n.second() {
                Some(r) => {
                    if r < i {
                        lemma_back_grads_extends(u, t, g1, r as int, d.1, f);
                    }
                },
                None => {},
            }
        }
    }
}

/// A backward pass on top of cached values only caches more, and caches
/// with every value all that the value rests on.
pub proof fn lemma_backward_settles(u: Tape, t: Tape, k: int, g: u64, f: spec_fn(Prim) -> u64)
    requires
        u.settles(t, f),
        u.grads.len() == u.nodes.len(),
    ensures
        u.after_backward(k, g, f).extends(u, f),
        u.after_backward(k, g, f).settles(t, f),
        u.after_backward(k, g, f).grads == t.back_grads(u.grads, k, g, f),
{
    let w = u.after_backward(k, g, f);
    lemma_back_grads_len(u, u.grads, k, g, f);
    lemma_back_grads_extends(u, t, u.grads, k, g, f);
    assert forall|j: int| 0 <= j < w.values.len() implies (#[trigger] w.values[j]) == u.values[j]
        || (u.values[j] is None && w.values[j] == Some(u.value(j, f))) by {
        if u.back_needs(k, j) {
            lemma_back_needs_unknown(u, k, j);
        }
    }
    lemma_extends_trans(w, u, t, f);
    assert forall|a: int, b: int| w.values[a] is Some && #[trigger] t.needs(a, b) implies w.values[b] is Some by {
        lemma_needs_unknown(t, a, b);
        if u.values[a] is Some {
            assert(u.values[b] is Some);
        } else {
            assert(u.back_needs(k, a));
            lemma_needs_split(u, t, a, b, f);
            if u.needs(a, b) {
                lemma_back_needs_trans(u, k, a, b);
            }
        }
    }
}

/// A backward pass keeps the invariant and, of the values, only caches
/// more.
pub proof fn lemma_after_backward(t: Tape, i: int, g: u64, f: spec_fn(Prim) -> u64)
    requires
        t.wf(),
    ensures
        t.after_backward(i, g, f).settles(t, f),
        t.after_backward(i, g, f).wf(),
{
    lemma_settles_itself(t, f);
    lemma_backward_settles(t, t, i, g, f);
}

/// The steps that a backward pass takes at an operation make up the
/// pass.
pub proof fn lemma_backward_step(t: Tape, i: int, g: u64, f: spec_fn(Prim) -> u64)
    requires
        t.wf(),
        0 <= i < t.len(),
        !(t.nodes[i] is Var),
    ensures
        t.after_descent(i, g, f) == t.after_backward(i, g, f),
{
    let n = t.nodes[i];
    assert(Tape::node_ok(n, i));
    lemma_settles_itself(t, f);
    let ta = if n.reads_operands() {
        match n.first() {
            Some(l) => t.after_forward(l as int, f),
            None => t,
        }
    } else {
        t
    };
    let t0 = if n.reads_operands() {
        t.after_operands(i, f)
    } else {
        t
    };
    if n.reads_operands() {
        match n.first() {
            Some(l) => {
                lemma_forward_settles(t, t, l as int, f);
            },
            None => {},
        }
        match n.second() {
            Some(r) => {
                lemma_forward_settles(ta, t, r as int, f);
            },
            None => {},
        }
    }
    assert(ta.settles(t, f));
    assert(t0.settles(t, f));
    assert(t0.extends(ta, f));
    assert(t0.grads == t.grads);
    let d = n.pullback(t.operand_value(n.first(), f), t.operand_value(n.second(), f), g, f);
    let t1 = match n.first() {
        Some(l) => t0.after_backward(l as int, d.0, f),
        None => t0,
    };
    match n.first() {
        Some(l) => {
            lemma_backward_settles(t0, t, l as int, d.0, f);
        },
        None => {},
    }
    assert(t1.settles(t, f));
    assert(t1.extends(t0, f));
    let t2 = match n.second() {
        Some(r) => t1.after_backward(r as int, d.1, f),
        None => t1,
    };
    match n.second() {
        Some(r) => {
            lemma_backward_settles(t1, t, r as int, d.1, f);
        },
        None => {},
    }
    assert(t2.settles(t, f));
    assert(t2.extends(t1, f));
    assert(t2 == t.after_descent(i, g, f));
    let target = t.after_backward(i, g, f);
    assert(t2.grads == target.grads);
    assert forall|j: int| 0 <= j < t.len() implies t2.values[j] == target.values[j] by {
        if t.back_needs(i, j) {
            lemma_back_needs_unknown(t, i, j);
            if n.first() matches Some(l) && n.reads_operands() && t.needs(l as int, j) {
                assert(ta.values[j] is Some);
            } else if n.second() matches Some(r) && n.reads_operands() && t.needs(r as int, j) {
                lemma_needs_split(ta, t, n.second()->0 as int, j, f);
                assert(t0.values[j] is Some);
            } else if n.first() matches Some(l) && l < i && t.back_needs(l as int, j) {
                lemma_back_needs_split(t0, t, n.first()->0 as int, j, f);
                assert(t1.values[j] is Some);
            } else {
                lemma_back_needs_split(t1, t, n.second()->0 as int, j, f);
            }
            assert(t2.values[j] is Some);
        } else {
            if n.reads_operands() {
                match n.second() {
                    Some(r) => {
                        if ta.needs(r as int, j) {
                            lemma_needs_shrinks(ta, t, r as int, j, f);
                        }
                    },
                    None => {},
                }
            }
            assert(t0.values[j] == t.values[j]);
            match n.first() {
                Some(l) => {
                    if t0.back_needs(l as int, j) {
                        lemma_back_needs_shrinks(t0, t, l as int, j, f);
                    }
                },
                None => {},
            }
            assert(t1.values[j] == t.values[j]);
            match n.second() {
                Some(r) => {
                    if t1.back_needs(r as int, j) {
                        lemma_back_needs_shrinks(t1, t, r as int, j, f);
                    }
                },
                None => {},
            }
        }
    }
    assert(t2.values =~= target.values);
}

} // verus!
