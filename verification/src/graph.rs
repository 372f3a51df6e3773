//! The tape itself: construction, binding, the forward and the backward
//! pass, and reuse.

use vstd::pervasive::unreached;
use vstd::prelude::*;
use crate::arith::{arith_of, computes, Prim, ONE, ZERO};
use crate::compile::parse_expr;
use crate::expr::Expr;
use crate::node::Node;
use crate::passes::{
    lemma_after_backward, lemma_after_forward, lemma_backward_step, lemma_forward_step,
};
use crate::tape::{
    lemma_extends_back_ready, lemma_extends_ready, lemma_extends_trans, lemma_extends_value,
    lemma_push_node_wf, lemma_push_var_wf, Tape,
};

verus! {

/// An append-only computation tape with cached values and accumulated
/// gradients.
pub struct Graph {
    gradients: Vec<u64>,
    buffer: Vec<Option<u64>>,
    nodes: Vec<Node>,
    value_ics: Vec<usize>,
    compiled: Option<usize>,
}

impl View for Graph {
    type V = Tape;

    closed spec fn view(&self) -> Tape {
        Tape {
            nodes: self.nodes@,
            values: self.buffer@,
            grads: self.gradients@,
            vars: self.value_ics@,
            root: self.compiled,
        }
    }
}

impl Default for Graph {
    fn default() -> (g: Graph)
        ensures
            g@ == Tape::empty(),
            g.wf(),
    {
        Graph::new()
    }
}

impl Graph {
    /// The invariant of the tape, stated on its model.
    pub open spec fn wf(&self) -> bool {
        self@.wf()
    }

    /// A tape without slots.
    pub fn new() -> (g: Graph)
        ensures
            g@ == Tape::empty(),
            g.wf(),
    {
        Graph {
            gradients: Vec::new(),
            buffer: Vec::new(),
            nodes: Vec::new(),
            value_ics: Vec::new(),
            compiled: None,
        }
    }

    /// The number of slots.
    pub fn len(&self) -> (n: usize)
        ensures
            n == self@.len(),
    {
        self.nodes.len()
    }

    /// Appends a variable bound to `value` and returns its slot.
    pub fn var(&mut self, value: u64) -> (index: usize)
        requires
            old(self).wf(),
        ensures
            final(self)@ == old(self)@.push_var(Some(value)),
            index == old(self)@.len(),
            final(self).wf(),
    {
        let index = self.buffer.len();
        self.buffer.push(Some(value));
        self.gradients.push(ZERO);
        self.nodes.push(Node::Var(index));
        self.value_ics.push(index);
        proof {
            assert(self.nodes.len() == old(self)@.len() + 1);
            lemma_push_var_wf(old(self)@, Some(value));
        }
        index
    }

    /// Appends `n_vars` variables without values.
    pub fn touch_vars(&mut self, n_vars: usize)
        requires
            old(self).wf(),
        ensures
            final(self)@ == old(self)@.push_vars(n_vars as nat),
            final(self).wf(),
    {
        let mut i: usize = 0;
        while i < n_vars
            invariant
                i <= n_vars,
                self@ == old(self)@.push_vars(i as nat),
                self.wf(),
            decreases n_vars - i,
        {
            let ghost before = self@;
            let index = self.buffer.len();
            self.buffer.push(None);
            self.gradients.push(ZERO);
            self.nodes.push(Node::Var(index));
            self.value_ics.push(index);
            proof {
                assert(self.nodes.len() == before.len() + 1);
                lemma_push_var_wf(before, None);
                assert(self@ == before.push_var(None));
            }
            i += 1;
        }
    }

    /// Whether slot `index` exists and holds a variable.
    pub fn is_var(&self, index: usize) -> (b: bool)
        ensures
            b == self@.is_var(index as int),
    {
        if index < self.nodes.len() {
            match self.nodes[index] {
                Node::Var(_) => true,
                _ => false,
            }
        } else {
            false
        }
    }

    /// For each of the first `n` slots, whether it can be evaluated.
    fn ready_flags(&self, n: usize) -> (flags: Vec<bool>)
        requires
            self.wf(),
            n <= self@.len(),
        ensures
            flags@.len() == n,
            forall|i: int| 0 <= i < n ==> flags@[i] == self@.ready(i),
    {
        let mut flags: Vec<bool> = Vec::new();
        let mut i: usize = 0;
        while i < n
            invariant
                self.wf(),
                i <= n <= self@.len(),
                flags@.len() == i,
                forall|j: int| 0 <= j < i ==> flags@[j] == self@.ready(j),
            decreases n - i,
        {
            let node = self.nodes[i];
            assert(Tape::node_ok(node, i as int));
            let ok = match self.buffer[i] {
                Some(_) => true,
                None => {
                    let first = match node.first_operand() {
                        Some(l) => flags[l],
                        None => true,
                    };
                    let second = match node.second_operand() {
                        Some(r) => flags[r],
                        None => true,
                    };
                    let derived = match node {
                        Node::Var(_) => false,
                        _ => true,
                    };
                    derived && first && second
                },
            };
            flags.push(ok);
            i += 1;
        }
        flags
    }

    /// Whether slot `index` can be evaluated: it exists, and no variable
    /// without a value is reached before a cached value is.
    pub fn is_ready(&self, index: usize) -> (b: bool)
        requires
            self.wf(),
        ensures
            b == self@.ready(index as int),
    {
        if index < self.nodes.len() {
            let flags = self.ready_flags(index + 1);
            flags[index]
        } else {
            false
        }
    }

    /// Whether a backward pass can start from slot `index`: it exists,
    /// every derivative rule on the way down can be applied, and every
    /// operand value that such a rule reads can be evaluated.
    pub fn is_back_ready(&self, index: usize) -> (b: bool)
        requires
            self.wf(),
        ensures
            b == self@.back_ready(index as int),
    {
        if index >= self.nodes.len() {
            return false;
        }
        let n = index + 1;
        let ready = self.ready_flags(n);
        let mut flags: Vec<bool> = Vec::new();
        let mut i: usize = 0;
        while i < n
            invariant
                self.wf(),
                i <= n <= self@.len(),
                ready@.len() == n,
                forall|j: int| 0 <= j < n ==> ready@[j] == self@.ready(j),
                flags@.len() == i,
                forall|j: int| 0 <= j < i ==> flags@[j] == self@.back_ready(j),
            decreases n - i,
        {
            let node = self.nodes[i];
            assert(Tape::node_ok(node, i as int));
            let reads = node.needs_values();
            let first = match node.first_operand() {
                Some(l) => flags[l] && (!reads || ready[l]),
                None => true,
            };
            let second = match node.second_operand() {
                Some(r) => flags[r] && (!reads || ready[r]),
                None => true,
            };
            flags.push(node.has_rule() && first && second);
            i += 1;
        }
        flags[index]
    }

    /// The slot of the variable declared at position `var_order`.
    pub fn get_var(&self, var_order: usize) -> (index: usize)
        requires
            self.wf(),
            var_order < self@.vars.len(),
        ensures
            index == self@.vars[var_order as int],
            self@.is_var(index as int),
    {
        self.value_ics[var_order]
    }

    /// The slots of the variables, in declaration order.
    pub fn get_vars(&self) -> (vars: Vec<usize>)
        ensures
            vars@ == self@.vars,
    {
        let mut vars: Vec<usize> = Vec::new();
        let mut k: usize = 0;
        while k < self.value_ics.len()
            invariant
                k <= self.value_ics@.len(),
                vars@ == self.value_ics@.take(k as int),
            decreases self.value_ics@.len() - k,
        {
            vars.push(self.value_ics[k]);
            k += 1;
        }
        vars
    }

    /// Binds the variable in slot `index` to `value`.
    pub fn subs_var(&mut self, index: usize, value: u64)
        requires
            old(self).wf(),
            old(self)@.is_var(index as int),
        ensures
            final(self)@ == old(self)@.with_value(index as int, value),
            final(self).wf(),
    {
        self.buffer.set(index, Some(value));
    }

    /// Binds the first variables, in declaration order, to `vals`.
    pub fn subs_vars(&mut self, vals: &[u64])
        requires
            old(self).wf(),
            vals@.len() <= old(self)@.vars.len(),
        ensures
            final(self)@ == old(self)@.bind_all(vals@),
            final(self).wf(),
    {
        let mut k: usize = 0;
        while k < vals.len()
            invariant
                k <= vals@.len(),
                vals@.len() <= old(self)@.vars.len(),
                old(self).wf(),
                self@ == old(self)@.bind_prefix(vals@, k as nat),
                self@.same_shape(old(self)@),
            decreases vals@.len() - k,
        {
            let index = self.value_ics[k];
            self.buffer.set(index, Some(vals[k]));
            k += 1;
        }
    }

    /// The symbol that stands for the variable declared at position
    /// `var_order`.
    pub fn get_symbol(&self, var_order: usize) -> (e: Expr)
        requires
            self.wf(),
            var_order < self@.vars.len(),
        ensures
            e == Expr::Symbol(self@.vars[var_order as int]),
    {
        Expr::Symbol(self.get_var(var_order))
    }

    /// One symbol per variable, in declaration order.
    pub fn get_symbols(&self) -> (symbols: Vec<Expr>)
        ensures
            symbols@ == Seq::new(self@.vars.len(), |k: int| Expr::Symbol(self@.vars[k])),
    {
        let mut symbols: Vec<Expr> = Vec::new();
        let mut k: usize = 0;
        while k < self.value_ics.len()
            invariant
                k <= self.value_ics@.len(),
                symbols@ == Seq::new(k as nat, |j: int| Expr::Symbol(self.value_ics@[j])),
            decreases self.value_ics@.len() - k,
        {
            symbols.push(Expr::Symbol(self.value_ics[k]));
            k += 1;
        }
        symbols
    }

    /// Appends one derived record and returns its slot.
    fn push(&mut self, node: Node) -> (index: usize)
        requires
            old(self).wf(),
            !(node is Var),
            Tape::node_ok(node, old(self)@.len() as int),
        ensures
            final(self)@ == old(self)@.push_node(node),
            index == old(self)@.len(),
            final(self).wf(),
    {
        let index = self.nodes.len();
        self.buffer.push(None);
        self.gradients.push(ZERO);
        self.nodes.push(node);
        proof {
            lemma_push_node_wf(old(self)@, node);
        }
        index
    }

    /// Appends `-operand`.
    pub fn neg(&mut self, operand: usize) -> (index: usize)
        requires
            old(self).wf(),
            operand < old(self)@.len(),
        ensures
            final(self)@ == old(self)@.push_node(Node::Neg(operand)),
            index == old(self)@.len(),
            final(self).wf(),
    {
        self.push(Node::Neg(operand))
    }

    /// Appends `1 / operand`.
    pub fn recip(&mut self, operand: usize) -> (index: usize)
        requires
            old(self).wf(),
            operand < old(self)@.len(),
        ensures
            final(self)@ == old(self)@.push_node(Node::Recip(operand)),
            index == old(self)@.len(),
            final(self).wf(),
    {
        self.push(Node::Recip(operand))
    }

    /// Appends the exponential of `operand`.
    pub fn exp(&mut self, operand: usize) -> (index: usize)
        requires
            old(self).wf(),
            operand < old(self)@.len(),
        ensures
            final(self)@ == old(self)@.push_node(Node::Exp(operand)),
            index == old(self)@.len(),
            final(self).wf(),
    {
        self.push(Node::Exp(operand))
    }

    /// Appends the natural logarithm of `operand`.
    pub fn ln(&mut self, operand: usize) -> (index: usize)
        requires
            old(self).wf(),
            operand < old(self)@.len(),
        ensures
            final(self)@ == old(self)@.push_node(Node::Ln(operand)),
            index == old(self)@.len(),
            final(self).wf(),
    {
        self.push(Node::Ln(operand))
    }

    /// Appends the sine of `operand`.
    pub fn sin(&mut self, operand: usize) -> (index: usize)
        requires
            old(self).wf(),
            operand < old(self)@.len(),
        ensures
            final(self)@ == old(self)@.push_node(Node::Sin(operand)),
            index == old(self)@.len(),
            final(self).wf(),
    {
        self.push(Node::Sin(operand))
    }

    /// Appends the cosine of `operand`.
    pub fn cos(&mut self, operand: usize) -> (index: usize)
        requires
            old(self).wf(),
            operand < old(self)@.len(),
        ensures
            final(self)@ == old(self)@.push_node(Node::Cos(operand)),
            index == old(self)@.len(),
            final(self).wf(),
    {
        self.push(Node::Cos(operand))
    }

    /// Appends the tangent of `operand`.
    pub fn tan(&mut self, operand: usize) -> (index: usize)
        requires
            old(self).wf(),
            operand < old(self)@.len(),
        ensures
            final(self)@ == old(self)@.push_node(Node::Tan(operand)),
            index == old(self)@.len(),
            final(self).wf(),
    {
        self.push(Node::Tan(operand))
    }

    /// Appends the hyperbolic sine of `operand`.
    pub fn sinh(&mut self, operand: usize) -> (index: usize)
        requires
            old(self).wf(),
            operand < old(self)@.len(),
        ensures
            final(self)@ == old(self)@.push_node(Node::Sinh(operand)),
            index == old(self)@.len(),
            final(self).wf(),
    {
        self.push(Node::Sinh(operand))
    }

    /// Appends the hyperbolic cosine of `operand`.
    pub fn cosh(&mut self, operand: usize) -> (index: usize)
        requires
            old(self).wf(),
            operand < old(self)@.len(),
        ensures
            final(self)@ == old(self)@.push_node(Node::Cosh(operand)),
            index == old(self)@.len(),
            final(self).wf(),
    {
        self.push(Node::Cosh(operand))
    }

    /// Appends the hyperbolic tangent of `operand`.
    pub fn tanh(&mut self, operand: usize) -> (index: usize)
        requires
            old(self).wf(),
            operand < old(self)@.len(),
        ensures
            final(self)@ == old(self)@.push_node(Node::Tanh(operand)),
            index == old(self)@.len(),
            final(self).wf(),
    {
        self.push(Node::Tanh(operand))
    }

    /// Appends `left + right`.
    pub fn add(&mut self, left: usize, right: usize) -> (index: usize)
        requires
            old(self).wf(),
            left < old(self)@.len(),
            right < old(self)@.len(),
        ensures
            final(self)@ == old(self)@.push_node(Node::Add(left, right)),
            index == old(self)@.len(),
            final(self).wf(),
    {
        self.push(Node::Add(left, right))
    }

    /// Appends `left - right`.
    pub fn sub(&mut self, left: usize, right: usize) -> (index: usize)
        requires
            old(self).wf(),
            left < old(self)@.len(),
            right < old(self)@.len(),
        ensures
            final(self)@ == old(self)@.push_node(Node::Sub(left, right)),
            index == old(self)@.len(),
            final(self).wf(),
    {
        self.push(Node::Sub(left, right))
    }

    /// Appends `left * right`.
    pub fn mul(&mut self, left: usize, right: usize) -> (index: usize)
        requires
            old(self).wf(),
            left < old(self)@.len(),
            right < old(self)@.len(),
        ensures
            final(self)@ == old(self)@.push_node(Node::Mul(left, right)),
            index == old(self)@.len(),
            final(self).wf(),
    {
        self.push(Node::Mul(left, right))
    }

    /// Appends `left / right`.
    pub fn div(&mut self, left: usize, right: usize) -> (index: usize)
        requires
            old(self).wf(),
            left < old(self)@.len(),
            right < old(self)@.len(),
        ensures
            final(self)@ == old(self)@.push_node(Node::Div(left, right)),
            index == old(self)@.len(),
            final(self).wf(),
    {
        self.push(Node::Div(left, right))
    }

    /// Appends `left` raised to `right`.
    pub fn pow(&mut self, left: usize, right: usize) -> (index: usize)
        requires
            old(self).wf(),
            left < old(self)@.len(),
            right < old(self)@.len(),
        ensures
            final(self)@ == old(self)@.push_node(Node::Pow(left, right)),
            index == old(self)@.len(),
            final(self).wf(),
    {
        self.push(Node::Pow(left, right))
    }

    /// Appends `num + right` for a literal `num`.
    pub fn addf(&mut self, num: u64, right: usize) -> (index: usize)
        requires
            old(self).wf(),
            right < old(self)@.len(),
        ensures
            final(self)@ == old(self)@.push_node(Node::Addf(num, right)),
            index == old(self)@.len(),
            final(self).wf(),
    {
        self.push(Node::Addf(num, right))
    }

    /// Appends `left - num` for a literal `num`.
    pub fn subf(&mut self, left: usize, num: u64) -> (index: usize)
        requires
            old(self).wf(),
            left < old(self)@.len(),
        ensures
            final(self)@ == old(self)@.push_node(Node::Subf(left, num)),
            index == old(self)@.len(),
            final(self).wf(),
    {
        self.push(Node::Subf(left, num))
    }

    /// Appends `num * right` for a literal `num`.
    pub fn mulf(&mut self, num: u64, right: usize) -> (index: usize)
        requires
            old(self).wf(),
            right < old(self)@.len(),
        ensures
            final(self)@ == old(self)@.push_node(Node::Mulf(num, right)),
            index == old(self)@.len(),
            final(self).wf(),
    {
        self.push(Node::Mulf(num, right))
    }

    /// Appends `operand` raised to the literal scalar `power`.
    pub fn powf(&mut self, operand: usize, power: u64) -> (index: usize)
        requires
            old(self).wf(),
            operand < old(self)@.len(),
        ensures
            final(self)@ == old(self)@.push_node(Node::Powf(operand, power)),
            index == old(self)@.len(),
            final(self).wf(),
    {
        self.push(Node::Powf(operand, power))
    }

    /// Appends `operand` raised to the literal integer `power`.
    pub fn powi(&mut self, operand: usize, power: i32) -> (index: usize)
        requires
            old(self).wf(),
            operand < old(self)@.len(),
        ensures
            final(self)@ == old(self)@.push_node(Node::Powi(operand, power)),
            index == old(self)@.len(),
            final(self).wf(),
    {
        self.push(Node::Powi(operand, power))
    }

    /// Evaluates slot `index` and returns its value. A cached value is
    /// returned as it is; otherwise the operands are evaluated, the
    /// operation is applied by `unit`, and the result is cached.
    pub fn forward_step<A: Fn(Prim) -> u64>(&mut self, index: usize, unit: &A) -> (value: u64)
        requires
            old(self).wf(),
            computes(*unit),
            old(self)@.ready(index as int),
        ensures
            value == old(self)@.value(index as int, arith_of(*unit)),
            final(self)@ == old(self)@.after_forward(index as int, arith_of(*unit)),
            final(self).wf(),
        decreases index, 1int,
    {
        match self.buffer[index] {
            Some(value) => value,
            None => {
                let node = self.nodes[index];
                assert(Tape::node_ok(node, index as int));
                let (a, b) = self.forward_operands(index, unit);
                proof {
                    lemma_after_forward(old(self)@, index as int, arith_of(*unit));
                }
                let result = node.apply(a, b, unit);
                self.buffer.set(index, Some(result));
                proof {
                    lemma_forward_step(old(self)@, index as int, arith_of(*unit));
                }
                result
            },
        }
    }

    /// Evaluates the operands of slot `index`, first then second, and
    /// returns their values; `ZERO` stands for an absent operand.
    fn forward_operands<A: Fn(Prim) -> u64>(&mut self, index: usize, unit: &A) -> (ab: (u64, u64))
        requires
            old(self).wf(),
            computes(*unit),
            index < old(self)@.len(),
            old(self)@.operands_ready(index as int),
        ensures
            ab.0 == old(self)@.operand_value(old(self)@.nodes[index as int].first(), arith_of(*unit)),
            ab.1 == old(self)@.operand_value(
                old(self)@.nodes[index as int].second(),
                arith_of(*unit),
            ),
            final(self)@ == old(self)@.after_operands(index as int, arith_of(*unit)),
            final(self).wf(),
        decreases index, 0int,
    {
        let ghost f = arith_of(*unit);
        let ghost t = self@;
        let node = self.nodes[index];
        assert(Tape::node_ok(node, index as int));
        let a = match node.first_operand() {
            Some(l) => self.forward_step(l, unit),
            None => ZERO,
        };
        proof {
            if let Some(l) = node.first() {
                lemma_after_forward(t, l as int, f);
            }
            if let Some(r) = node.second() {
                lemma_extends_ready(self@, t, r as int, f);
                lemma_extends_value(self@, t, r as int, f);
            }
        }
        let b = match node.second_operand() {
            Some(r) => self.forward_step(r, unit),
            None => ZERO,
        };
        (a, b)
    }

    /// Forgets every derived value and every gradient. Records, variables
    /// with their values, and the root stay.
    pub fn reset(&mut self)
        requires
            old(self).wf(),
        ensures
            final(self)@ == old(self)@.reset(),
            final(self).wf(),
    {
        let n = self.nodes.len();
        let mut i: usize = 0;
        while i < n
            invariant
                i <= n,
                n == old(self)@.len(),
                old(self).wf(),
                self@.same_shape(old(self)@),
                forall|j: int| 0 <= j < i ==> self@.values[j] == old(self)@.reset().values[j],
                forall|j: int| 0 <= j < i ==> self@.grads[j] == ZERO,
                forall|j: int| i <= j < n ==> self@.values[j] == old(self)@.values[j],
            decreases n - i,
        {
            match self.nodes[i] {
                Node::Var(_) => {},
                _ => {
                    self.buffer.set(i, None);
                },
            }
            self.gradients.set(i, ZERO);
            i += 1;
        }
    }

    /// Propagates `upstream_gradient` from slot `index` down to the
    /// variables it depends on. At a variable the gradient is added to what
    /// has been accumulated there; at an operation its derivative rule
    /// decides what each operand receives.
    pub fn backward_step<A: Fn(Prim) -> u64>(
        &mut self,
        index: usize,
        upstream_gradient: u64,
        unit: &A,
    )
        requires
            old(self).wf(),
            computes(*unit),
            old(self)@.back_ready(index as int),
        ensures
            final(self)@ == old(self)@.after_backward(
                index as int,
                upstream_gradient,
                arith_of(*unit),
            ),
            final(self).wf(),
        decreases index,
    {
        let ghost f = arith_of(*unit);
        let ghost t = self@;
        let node = self.nodes[index];
        assert(Tape::node_ok(node, index as int));
        match node {
            Node::Var(value_index) => {
                let sum = unit(Prim::Add(self.gradients[value_index], upstream_gradient));
                self.gradients.set(value_index, sum);
            },
            _ => {
                let (a, b) = if node.needs_values() {
                    self.forward_operands(index, unit)
                } else {
                    (ZERO, ZERO)
                };
                let d = node.differentiate(a, b, upstream_gradient, unit);
                let ghost t0 = self@;
                proof {
                    lemma_after_forward(t, index as int, f);
                    assert(t0.extends(t, f));
                    assert(d == node.pullback(
                        t.operand_value(node.first(), f),
                        t.operand_value(node.second(), f),
                        upstream_gradient,
                        f,
                    ));
                    if let Some(l) = node.first() {
                        lemma_extends_back_ready(t0, t, l as int, f);
                    }
                }
                match node.first_operand() {
                    Some(l) => {
                        self.backward_step(l, d.0, unit);
                    },
                    None => {},
                }
                proof {
                    if let Some(l) = node.first() {
                        lemma_after_backward(t0, l as int, d.0, f);
                        lemma_extends_trans(self@, t0, t, f);
                    }
                    if let Some(r) = node.second() {
                        lemma_extends_back_ready(self@, t, r as int, f);
                    }
                }
                match node.second_operand() {
                    Some(r) => {
                        self.backward_step(r, d.1, unit);
                    },
                    None => {},
                }
                proof {
                    assert(self@ == t.after_descent(index as int, upstream_gradient, f));
                    lemma_backward_step(t, index as int, upstream_gradient, f);
                }
            },
        }
    }

    /// The gradient accumulated in slot `index`.
    pub fn get_gradient(&self, index: usize) -> (g: u64)
        requires
            self.wf(),
            index < self@.len(),
        ensures
            g == self@.grads[index as int],
    {
        self.gradients[index]
    }

    /// The gradients of the variables, in declaration order.
    pub fn get_gradients(&self) -> (grads: Vec<u64>)
        requires
            self.wf(),
        ensures
            grads@ == self@.gradients(),
            grads@.len() == self@.vars.len(),
    {
        let mut grads: Vec<u64> = Vec::new();
        let mut k: usize = 0;
        while k < self.value_ics.len()
            invariant
                self.wf(),
                k <= self.value_ics@.len(),
                grads@ == self@.gradients().take(k as int),
            decreases self.value_ics@.len() - k,
        {
            grads.push(self.gradients[self.value_ics[k]]);
            k += 1;
        }
        grads
    }

    /// Lowers `expr` onto the tape and makes its slot the root. An earlier
    /// root is replaced; the slots it was made of stay.
    pub fn compile(&mut self, expr: Expr)
        requires
            old(self).wf(),
            expr.symbols_below(old(self)@.len() as int),
        ensures
            final(self)@ == old(self)@.compile(expr),
            final(self)@.grows_from(old(self)@),
            final(self)@.root is Some,
            old(self)@.rules_defined() && expr.rules_defined() ==> final(self)@.rules_defined(),
            final(self).wf(),
    {
        let root = parse_expr(expr, self);
        self.compiled = Some(root);
    }

    /// The root, if an expression has been compiled.
    pub fn get_compiled(&self) -> (root: Option<usize>)
        ensures
            root == self@.root,
    {
        self.compiled
    }

    /// Evaluates the root.
    pub fn forward<A: Fn(Prim) -> u64>(&mut self, unit: &A) -> (value: u64)
        requires
            old(self).wf(),
            computes(*unit),
            old(self)@.root is Some,
            old(self)@.ready(old(self)@.root->0 as int),
        ensures
            value == old(self)@.value(old(self)@.root->0 as int, arith_of(*unit)),
            final(self)@ == old(self)@.after_forward(old(self)@.root->0 as int, arith_of(*unit)),
            final(self).wf(),
    {
        match self.compiled {
            Some(idx) => self.forward_step(idx, unit),
            None => unreached(),
        }
    }

    /// Propagates the gradient `1.0` from the root.
    pub fn backward<A: Fn(Prim) -> u64>(&mut self, unit: &A)
        requires
            old(self).wf(),
            computes(*unit),
            old(self)@.root is Some,
            old(self)@.back_ready(old(self)@.root->0 as int),
        ensures
            final(self)@ == old(self)@.after_backward(
                old(self)@.root->0 as int,
                ONE,
                arith_of(*unit),
            ),
            final(self).wf(),
    {
        match self.compiled {
            Some(idx) => self.backward_step(idx, ONE, unit),
            None => unreached(),
        }
    }
}

} // verus!
