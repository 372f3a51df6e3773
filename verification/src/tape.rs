//! The mathematical model of a tape: what its slots hold, what a forward
//! pass and a backward pass make of it, and the facts that the passes
//! rest on.

use vstd::prelude::*;
use crate::arith::{Prim, ZERO};
use crate::node::Node;

verus! {

/// A tape as a value: operation records, cached values, accumulated
/// gradients, the declared variables in declaration order, and the compiled
/// root.
#[verifier::ext_equal]
pub struct Tape {
    pub nodes: Seq<Node>,
    pub values: Seq<Option<u64>>,
    pub grads: Seq<u64>,
    pub vars: Seq<usize>,
    pub root: Option<usize>,
}

impl Tape {
    /// The number of slots.
    pub open spec fn len(self) -> nat {
        self.nodes.len()
    }

    /// The tape without slots.
    pub open spec fn empty() -> Tape {
        Tape {
            nodes: Seq::empty(),
            values: Seq::empty(),
            grads: Seq::empty(),
            vars: Seq::empty(),
            root: None,
        }
    }

    /// A record at slot `i` refers to earlier slots only, and a variable
    /// record names its own slot.
    pub open spec fn node_ok(n: Node, i: int) -> bool {
        &&& n matches Node::Var(k) ==> k == i
        &&& n.first() matches Some(l) ==> l < i
        &&& n.second() matches Some(r) ==> r < i
    }

    /// The invariant of a tape: the three slot sequences have one length,
    /// operands precede their operation, `vars` lists exactly the variable
    /// slots in increasing order, and the root is a slot.
    pub open spec fn wf(self) -> bool {
        &&& self.values.len() == self.nodes.len()
        &&& self.grads.len() == self.nodes.len()
        &&& forall|i: int| 0 <= i < self.nodes.len() ==> Self::node_ok(#[trigger] self.nodes[i], i)
        &&& forall|k: int|
            0 <= k < self.vars.len() ==> (#[trigger] self.vars[k]) < self.nodes.len()
                && self.nodes[self.vars[k] as int] is Var
        &&& forall|j: int, k: int|
            0 <= j < k < self.vars.len() ==> (#[trigger] self.vars[j]) < (#[trigger] self.vars[k])
        &&& forall|i: int|
            0 <= i < self.nodes.len() && (#[trigger] self.nodes[i]) is Var ==> self.vars.contains(
                i as usize,
            )
        &&& self.root matches Some(r) ==> r < self.nodes.len()
    }

    /// Both tapes have the same records, variables, root and lengths.
    pub open spec fn same_shape(self, other: Tape) -> bool {
        &&& self.nodes == other.nodes
        &&& self.vars == other.vars
        &&& self.root == other.root
        &&& self.values.len() == other.values.len()
        &&& self.grads.len() == other.grads.len()
    }

    /// Slot `i` exists and holds a variable.
    pub open spec fn is_var(self, i: int) -> bool {
        0 <= i < self.nodes.len() && self.nodes[i] is Var
    }

    /// The derivative rule of every operation on the tape can be applied.
    pub open spec fn rules_defined(self) -> bool {
        forall|i: int| 0 <= i < self.nodes.len() ==> (#[trigger] self.nodes[i]).rule_defined()
    }

    /// Every variable has a value.
    pub open spec fn all_bound(self) -> bool {
        forall|i: int| 0 <= i < self.nodes.len() && (#[trigger] self.nodes[i]) is Var ==> self.values[i] is Some
    }

    /// No derived slot has a value and no gradient has been accumulated:
    /// the state of a tape that was built and never run.
    pub open spec fn pristine(self) -> bool {
        &&& forall|i: int| 0 <= i < self.values.len() && !self.is_var(i) ==> (#[trigger] self.values[i]) is None
        &&& forall|i: int| 0 <= i < self.grads.len() ==> (#[trigger] self.grads[i]) == ZERO
    }

    /// The tape with one derived record appended: unknown value, zero
    /// gradient.
    pub open spec fn push_node(self, n: Node) -> Tape {
        Tape {
            nodes: self.nodes.push(n),
            values: self.values.push(None),
            grads: self.grads.push(ZERO),
            ..self
        }
    }

    /// The tape with one variable appended and registered, holding `v`.
    pub open spec fn push_var(self, v: Option<u64>) -> Tape {
        Tape {
            nodes: self.nodes.push(Node::Var(self.nodes.len() as usize)),
            values: self.values.push(v),
            grads: self.grads.push(ZERO),
            vars: self.vars.push(self.nodes.len() as usize),
            root: self.root,
        }
    }

    /// The tape with `n` unbound variables appended.
    pub open spec fn push_vars(self, n: nat) -> Tape
        decreases n,
    {
        if n == 0 {
            self
        } else {
            self.push_vars((n - 1) as nat).push_var(None)
        }
    }

    /// The tape with the value `v` in slot `i`.
    pub open spec fn with_value(self, i: int, v: u64) -> Tape {
        Tape { values: self.values.update(i, Some(v)), ..self }
    }

    /// The tape whose first `n` variables hold the first `n` of `xs`.
    pub open spec fn bind_prefix(self, xs: Seq<u64>, n: nat) -> Tape
        decreases n,
    {
        if n == 0 {
            self
        } else {
            self.bind_prefix(xs, (n - 1) as nat).with_value(self.vars[n - 1] as int, xs[n - 1])
        }
    }

    /// The tape whose variables hold `xs`, in declaration order.
    pub open spec fn bind_all(self, xs: Seq<u64>) -> Tape {
        self.bind_prefix(xs, xs.len())
    }

    /// The tape with every derived value forgotten and every gradient zero.
    /// Variables keep their values.
    pub open spec fn reset(self) -> Tape {
        Tape {
            values: Seq::new(
                self.values.len(),
                |i: int|
                    if self.is_var(i) {
                        self.values[i]
                    } else {
                        None
                    },
            ),
            grads: Seq::new(self.grads.len(), |i: int| ZERO),
            ..self
        }
    }

    /// The tape with root `r`.
    pub open spec fn with_root(self, r: usize) -> Tape {
        Tape { root: Some(r), ..self }
    }

    /// The gradients of the variables, in declaration order.
    pub open spec fn gradients(self) -> Seq<u64> {
        Seq::new(self.vars.len(), |k: int| self.grads[self.vars[k] as int])
    }

    /// The value of slot `i` under the arithmetic `f`: the cached value
    /// where there is one, else the operation applied to the values of its
    /// operands.
    pub open spec fn value(self, i: int, f: spec_fn(Prim) -> u64) -> u64
        decreases i,
    {
        if 0 <= i < self.nodes.len() && i < self.values.len() {
            match self.values[i] {
                Some(v) => v,
                None => {
                    let n = self.nodes[i];
                    let a = match n.first() {
                        Some(l) => if l < i {
                            self.value(l as int, f)
                        } else {
                            ZERO
                        },
                        None => ZERO,
                    };
                    let b = match n.second() {
                        Some(r) => if r < i {
                            self.value(r as int, f)
                        } else {
                            ZERO
                        },
                        None => ZERO,
                    };
                    n.value(a, b, f)
                },
            }
        } else {
            ZERO
        }
    }

    /// The value of an operand, `ZERO` for an absent one.
    pub open spec fn operand_value(self, o: Option<usize>, f: spec_fn(Prim) -> u64) -> u64 {
        match o {
            Some(l) => self.value(l as int, f),
            None => ZERO,
        }
    }

    /// Slot `i` can be evaluated: no variable without a value is reached
    /// before a cached value is.
    pub open spec fn ready(self, i: int) -> bool
        decreases i,
    {
        &&& 0 <= i < self.nodes.len()
        &&& i < self.values.len()
        &&& self.values[i] is None ==> {
            let n = self.nodes[i];
            &&& !(n is Var)
            &&& n.first() matches Some(l) ==> l < i && self.ready(l as int)
            &&& n.second() matches Some(r) ==> r < i && self.ready(r as int)
        }
    }

    /// Evaluating slot `i` computes slot `j`: `j` is `i` or is reached from
    /// `i` through operands, and no slot on the way, `i` and `j` included,
    /// has a cached value.
    pub open spec fn needs(self, i: int, j: int) -> bool
        decreases i,
    {
        &&& 0 <= i < self.nodes.len()
        &&& i < self.values.len()
        &&& self.values[i] is None
        &&& (j == i || {
            let n = self.nodes[i];
            ||| (n.first() matches Some(l) && l < i && self.needs(l as int, j))
            ||| (n.second() matches Some(r) && r < i && self.needs(r as int, j))
        })
    }

    /// Both operands of slot `i` can be evaluated.
    pub open spec fn operands_ready(self, i: int) -> bool {
        let n = self.nodes[i];
        &&& n.first() matches Some(l) ==> self.ready(l as int)
        &&& n.second() matches Some(r) ==> self.ready(r as int)
    }

    /// The tape after slot `i` has been evaluated: every slot that the
    /// evaluation computes holds its value, and every other slot holds what
    /// it held.
    pub open spec fn after_forward(self, i: int, f: spec_fn(Prim) -> u64) -> Tape {
        Tape {
            values: Seq::new(
                self.values.len(),
                |j: int|
                    if self.needs(i, j) {
                        Some(self.value(j, f))
                    } else {
                        self.values[j]
                    },
            ),
            ..self
        }
    }

    /// The tape after the operands of slot `i` have been evaluated, first
    /// then second.
    pub open spec fn after_operands(self, i: int, f: spec_fn(Prim) -> u64) -> Tape {
        let n = self.nodes[i];
        let t1 = match n.first() {
            Some(l) => self.after_forward(l as int, f),
            None => self,
        };
        match n.second() {
            Some(r) => t1.after_forward(r as int, f),
            None => t1,
        }
    }

    /// A backward pass from slot `i` can run: it reads no variable without
    /// a value, and the derivative rule of every operation on the way down
    /// can be applied.
    pub open spec fn back_ready(self, i: int) -> bool
        decreases i,
    {
        &&& 0 <= i < self.nodes.len()
        &&& {
            let n = self.nodes[i];
            &&& n.rule_defined()
            &&& n.reads_operands() ==> self.operands_ready(i)
            &&& n.first() matches Some(l) ==> l < i && self.back_ready(l as int)
            &&& n.second() matches Some(r) ==> r < i && self.back_ready(r as int)
        }
    }

    /// A backward pass from slot `i` evaluates slot `j`: on the way down
    /// from `i` there is an operation whose derivative rule reads operand
    /// values, and evaluating one of its operands computes `j`.
    pub open spec fn back_needs(self, i: int, j: int) -> bool
        decreases i,
    {
        &&& 0 <= i < self.nodes.len()
        &&& {
            let n = self.nodes[i];
            ||| (n.first() matches Some(l) && n.reads_operands() && self.needs(l as int, j))
            ||| (n.second() matches Some(r) && n.reads_operands() && self.needs(r as int, j))
            ||| (n.first() matches Some(l) && l < i && self.back_needs(l as int, j))
            ||| (n.second() matches Some(r) && r < i && self.back_needs(r as int, j))
        }
    }

    /// The gradients `gs` after the gradient `g` has been propagated from
    /// slot `i`.
    ///
    /// At a variable, `g` is added to its gradient. At an operation, the
    /// derivative rule turns `g` into one gradient per operand, and each is
    /// propagated in turn, first operand then second. A slot that is an
    /// operand twice, or of two operations, receives a gradient each time.
    pub open spec fn back_grads(self, gs: Seq<u64>, i: int, g: u64, f: spec_fn(Prim) -> u64) -> Seq<
        u64,
    >
        decreases i,
    {
        if 0 <= i < self.nodes.len() {
            let n = self.nodes[i];
            if n is Var {
                gs.update(i, f(Prim::Add(gs[i], g)))
            } else {
                let d = n.pullback(
                    self.operand_value(n.first(), f),
                    self.operand_value(n.second(), f),
                    g,
                    f,
                );
                let g1 = match n.first() {
                    Some(l) => if l < i {
                        self.back_grads(gs, l as int, d.0, f)
                    } else {
                        gs
                    },
                    None => gs,
                };
                match n.second() {
                    Some(r) => if r < i {
                        self.back_grads(g1, r as int, d.1, f)
                    } else {
                        g1
                    },
                    None => g1,
                }
            }
        } else {
            gs
        }
    }

    /// The tape after the gradient `g` has been propagated from slot `i`:
    /// the gradients are those of [`Tape::back_grads`], every slot that the
    /// pass evaluates holds its value, and every other slot holds what it
    /// held.
    pub open spec fn after_backward(self, i: int, g: u64, f: spec_fn(Prim) -> u64) -> Tape {
        Tape {
            values: Seq::new(
                self.values.len(),
                |j: int|
                    if self.back_needs(i, j) {
                        Some(self.value(j, f))
                    } else {
                        self.values[j]
                    },
            ),
            grads: self.back_grads(self.grads, i, g, f),
            ..self
        }
    }

    /// The tape after the steps that a backward pass takes at the operation
    /// in slot `i`: the operands are evaluated if the derivative rule reads
    /// them, the rule is applied to `g`, and its results are propagated from
    /// the first operand and then from the second.
    pub open spec fn after_descent(self, i: int, g: u64, f: spec_fn(Prim) -> u64) -> Tape {
        let n = self.nodes[i];
        let t0 = if n.reads_operands() {
            self.after_operands(i, f)
        } else {
            self
        };
        let d = n.pullback(
            self.operand_value(n.first(), f),
            self.operand_value(n.second(), f),
            g,
            f,
        );
        let t1 = match n.first() {
            Some(l) => t0.after_backward(l as int, d.0, f),
            None => t0,
        };
        match n.second() {
            Some(r) => t1.after_backward(r as int, d.1, f),
            None => t1,
        }
    }

    /// `self` is `earlier` with derived slots appended: what was there is
    /// unchanged, and every new slot holds an operation, no value and a
    /// zero gradient.
    pub open spec fn grows_from(self, earlier: Tape) -> bool {
        &&& earlier.nodes.len() <= self.nodes.len()
        &&& self.vars == earlier.vars
        &&& forall|i: int|
            0 <= i < earlier.nodes.len() ==> (#[trigger] self.nodes[i]) == earlier.nodes[i]
        &&& forall|i: int|
            0 <= i < earlier.nodes.len() ==> (#[trigger] self.values[i]) == earlier.values[i]
        &&& forall|i: int|
            0 <= i < earlier.nodes.len() ==> (#[trigger] self.grads[i]) == earlier.grads[i]
        &&& forall|i: int|
            earlier.nodes.len() <= i < self.nodes.len() ==> !((#[trigger] self.nodes[i]) is Var)
        &&& forall|i: int|
            earlier.nodes.len() <= i < self.nodes.len() ==> (#[trigger] self.values[i]) is None
        &&& forall|i: int|
            earlier.nodes.len() <= i < self.nodes.len() ==> (#[trigger] self.grads[i]) == ZERO
    }

    /// The tape with one bound variable per scalar of the first `n` of `xs`
    /// appended.
    pub open spec fn declare_prefix(self, xs: Seq<u64>, n: nat) -> Tape
        decreases n,
    {
        if n == 0 {
            self
        } else {
            self.declare_prefix(xs, (n - 1) as nat).push_var(Some(xs[n - 1]))
        }
    }

    /// The tape with one bound variable per scalar of `xs` appended.
    pub open spec fn declare(self, xs: Seq<u64>) -> Tape {
        self.declare_prefix(xs, xs.len())
    }

    /// `self` is `earlier` with more values cached: same shape, and each
    /// slot holds what it held, or held nothing and now holds its value.
    pub open spec fn extends(self, earlier: Tape, f: spec_fn(Prim) -> u64) -> bool {
        &&& self.same_shape(earlier)
        &&& forall|j: int|
            0 <= j < self.values.len() ==> (#[trigger] self.values[j]) == earlier.values[j] || (
            earlier.values[j] is None && self.values[j] == Some(earlier.value(j, f)))
    }

    /// `self` is `earlier` with more values cached, and with every cached
    /// value it caches all that an evaluation of that slot would have
    /// computed.
    pub open spec fn settles(self, earlier: Tape, f: spec_fn(Prim) -> u64) -> bool {
        &&& self.extends(earlier, f)
        &&& forall|a: int, b: int|
            self.values[a] is Some && #[trigger] earlier.needs(a, b) ==> self.values[b] is Some
    }
}

/// Caching values does not change the value of any slot.
pub proof fn lemma_extends_value(later: Tape, earlier: Tape, i: int, f: spec_fn(Prim) -> u64)
    requires
        later.extends(earlier, f),
    ensures
        later.value(i, f) == earlier.value(i, f),
    decreases i,
{
    if 0 <= i < earlier.nodes.len() && i < earlier.values.len() {
        if earlier.values[i] is None && later.values[i] is None {
            let n = earlier.nodes[i];
            match n.first() {
                Some(l) => {
                    if l < i {
                        lemma_extends_value(later, earlier, l as int, f);
                    }
                },
                None => {},
            }
            match n.second() {
                Some(r) => {
                    if r < i {
                        lemma_extends_value(later, earlier, r as int, f);
                    }
                },
                None => {},
            }
        }
    }
}

/// Caching more on top of a tape that cached more is caching more.
pub proof fn lemma_extends_trans(c: Tape, b: Tape, a: Tape, f: spec_fn(Prim) -> u64)
    requires
        c.extends(b, f),
        b.extends(a, f),
    ensures
        c.extends(a, f),
{
    assert forall|j: int| 0 <= j < c.values.len() implies (#[trigger] c.values[j]) == a.values[j]
        || (a.values[j] is None && c.values[j] == Some(a.value(j, f))) by {
        lemma_extends_value(b, a, j, f);
    }
}

/// A slot that can be evaluated can still be evaluated when more values
/// are cached.
pub proof fn lemma_extends_ready(later: Tape, earlier: Tape, i: int, f: spec_fn(Prim) -> u64)
    requires
        later.extends(earlier, f),
        earlier.ready(i),
    ensures
        later.ready(i),
    decreases i,
{
    if later.values[i] is None {
        let n = earlier.nodes[i];
        match n.first() {
            Some(l) => {
                lemma_extends_ready(later, earlier, l as int, f);
            },
            None => {},
        }
        match n.second() {
            Some(r) => {
                lemma_extends_ready(later, earlier, r as int, f);
            },
            None => {},
        }
    }
}

/// A backward pass that can run can still run when more values are cached.
pub proof fn lemma_extends_back_ready(later: Tape, earlier: Tape, i: int, f: spec_fn(Prim) -> u64)
    requires
        later.extends(earlier, f),
        earlier.back_ready(i),
    ensures
        later.back_ready(i),
    decreases i,
{
    let n = earlier.nodes[i];
    match n.first() {
        Some(l) => {
            lemma_extends_back_ready(later, earlier, l as int, f);
            if n.reads_operands() {
                lemma_extends_ready(later, earlier, l as int, f);
            }
        },
        None => {},
    }
    match n.second() {
        Some(r) => {
            lemma_extends_back_ready(later, earlier, r as int, f);
            if n.reads_operands() {
                lemma_extends_ready(later, earlier, r as int, f);
            }
        },
        None => {},
    }
}

/// Where every variable has a value, every slot can be evaluated, and a
/// backward pass can start anywhere if every derivative rule on the tape
/// can be applied.
pub proof fn lemma_bound_is_ready(t: Tape, i: int)
    requires
        t.wf(),
        t.all_bound(),
        0 <= i < t.len(),
    ensures
        t.ready(i),
        t.rules_defined() ==> t.back_ready(i),
    decreases i,
{
    let n = t.nodes[i];
    assert(Tape::node_ok(n, i));
    match n.first() {
        Some(l) => {
            lemma_bound_is_ready(t, l as int);
        },
        None => {},
    }
    match n.second() {
        Some(r) => {
            lemma_bound_is_ready(t, r as int);
        },
        None => {},
    }
}

/// Appended slots change the value of no earlier slot.
pub proof fn lemma_grows_value(later: Tape, earlier: Tape, i: int, f: spec_fn(Prim) -> u64)
    requires
        earlier.wf(),
        later.wf(),
        later.grows_from(earlier),
        0 <= i < earlier.len(),
    ensures
        later.value(i, f) == earlier.value(i, f),
    decreases i,
{
    let n = earlier.nodes[i];
    assert(later.nodes[i] == n);
    assert(later.values[i] == earlier.values[i]);
    assert(Tape::node_ok(n, i));
    if earlier.values[i] is None {
        match n.first() {
            Some(l) => {
                lemma_grows_value(later, earlier, l as int, f);
            },
            None => {},
        }
        match n.second() {
            Some(r) => {
                lemma_grows_value(later, earlier, r as int, f);
            },
            None => {},
        }
    }
}

/// Appending a variable keeps the invariant.
pub proof fn lemma_push_var_wf(t: Tape, v: Option<u64>)
    requires
        t.wf(),
        t.len() < usize::MAX,
    ensures
        t.push_var(v).wf(),
{
    let u = t.push_var(v);
    let n = t.nodes.len() as int;
    assert forall|i: int| 0 <= i < u.nodes.len() && (#[trigger] u.nodes[i]) is Var implies u.vars.contains(
        i as usize,
    ) by {
        if i < n {
            assert(t.nodes[i] is Var);
            let k = choose|k: int| 0 <= k < t.vars.len() && t.vars[k] == i as usize;
            assert(u.vars[k] == i as usize);
        } else {
            assert(u.vars[t.vars.len() as int] == i as usize);
        }
    }
    assert forall|k: int| 0 <= k < u.vars.len() implies (#[trigger] u.vars[k]) < u.nodes.len()
        && u.nodes[u.vars[k] as int] is Var by {
        if k < t.vars.len() {
            assert(t.vars[k] < t.nodes.len());
        }
    }
    assert forall|j: int, k: int| 0 <= j < k < u.vars.len() implies (#[trigger] u.vars[j]) < (
    #[trigger] u.vars[k]) by {
        if k < t.vars.len() {
        } else {
            assert(t.vars[j] < t.nodes.len());
        }
    }
    assert forall|i: int| 0 <= i < u.nodes.len() implies Tape::node_ok(#[trigger] u.nodes[i], i) by {
        if i < n {
            assert(Tape::node_ok(t.nodes[i], i));
        }
    }
}

/// Appending a derived record whose operands exist keeps the invariant.
pub proof fn lemma_push_node_wf(t: Tape, node: Node)
    requires
        t.wf(),
        !(node is Var),
        Tape::node_ok(node, t.len() as int),
    ensures
        t.push_node(node).wf(),
{
    let u = t.push_node(node);
    let n = t.nodes.len() as int;
    assert forall|i: int| 0 <= i < u.nodes.len() implies Tape::node_ok(#[trigger] u.nodes[i], i) by {
        if i < n {
            assert(Tape::node_ok(t.nodes[i], i));
        }
    }
    assert forall|i: int| 0 <= i < u.nodes.len() && (#[trigger] u.nodes[i]) is Var implies u.vars.contains(
        i as usize,
    ) by {
        assert(t.nodes[i] is Var);
    }
    assert forall|k: int| 0 <= k < u.vars.len() implies (#[trigger] u.vars[k]) < u.nodes.len()
        && u.nodes[u.vars[k] as int] is Var by {
        assert(t.vars[k] < t.nodes.len());
    }
}

/// Growing twice is growing.
pub proof fn lemma_grows_trans(c: Tape, b: Tape, a: Tape)
    requires
        c.grows_from(b),
        b.grows_from(a),
    ensures
        c.grows_from(a),
{
    assert forall|i: int| 0 <= i < a.nodes.len() implies (#[trigger] c.nodes[i]) == a.nodes[i] by {
        assert(b.nodes[i] == a.nodes[i]);
    }
    assert forall|i: int| 0 <= i < a.nodes.len() implies (#[trigger] c.values[i]) == a.values[i] by {
        assert(b.values[i] == a.values[i]);
    }
    assert forall|i: int| 0 <= i < a.nodes.len() implies (#[trigger] c.grads[i]) == a.grads[i] by {
        assert(b.grads[i] == a.grads[i]);
    }
    assert forall|i: int| a.nodes.len() <= i < c.nodes.len() implies !((#[trigger] c.nodes[i]) is Var) by {
        if i < b.nodes.len() {
            assert(!(b.nodes[i] is Var));
        }
    }
    assert forall|i: int| a.nodes.len() <= i < c.nodes.len() implies (#[trigger] c.values[i]) is None by {
        if i < b.nodes.len() {
            assert(b.values[i] is None);
        }
    }
    assert forall|i: int| a.nodes.len() <= i < c.nodes.len() implies (#[trigger] c.grads[i]) == ZERO by {
        if i < b.nodes.len() {
            assert(b.grads[i] == ZERO);
        }
    }
}

/// Appended derived slots leave every variable bound and the tape as
/// unused as it was.
pub proof fn lemma_grows_keeps(later: Tape, earlier: Tape)
    requires
        earlier.wf(),
        later.wf(),
        later.grows_from(earlier),
    ensures
        earlier.all_bound() ==> later.all_bound(),
        earlier.pristine() ==> later.pristine(),
{
    if earlier.all_bound() {
        assert forall|i: int| 0 <= i < later.nodes.len() && (#[trigger] later.nodes[i]) is Var implies later.values[i] is Some by {
            if i < earlier.nodes.len() {
                assert(earlier.nodes[i] is Var);
                assert(later.values[i] == earlier.values[i]);
            }
        }
    }
    if earlier.pristine() {
        assert forall|i: int| 0 <= i < later.values.len() && !later.is_var(i) implies (#[trigger] later.values[i]) is None by {
            if i < earlier.nodes.len() {
                assert(later.nodes[i] == earlier.nodes[i]);
                assert(earlier.values[i] is None);
            }
        }
        assert forall|i: int| 0 <= i < later.grads.len() implies (#[trigger] later.grads[i]) == ZERO by {
            if i < earlier.nodes.len() {
                assert(earlier.grads[i] == ZERO);
            }
        }
    }
}

} // verus!
