//! Operation records and the two per-operator tables: the value of an
//! operation and the gradients it hands down to its operands.

use vstd::prelude::*;
use vstd::pervasive::unreached;
use crate::arith::{arith_of, computes, Prim, ONE, ZERO};

verus! {

/// One operation on the tape. Operands are tape indices or literal scalars.
#[derive(Clone, Copy, Debug)]
pub enum Node {
    /// A declared input, holding its own tape index.
    Var(usize),
    /// `left + right`
    Add(usize, usize),
    /// `literal + operand`
    Addf(u64, usize),
    /// `left - right`
    Sub(usize, usize),
    /// `operand - literal`
    Subf(usize, u64),
    /// `left * right`
    Mul(usize, usize),
    /// `literal * operand`
    Mulf(u64, usize),
    /// `left / right`
    Div(usize, usize),
    /// `left` raised to `right`
    Pow(usize, usize),
    /// `operand` raised to a literal scalar power
    Powf(usize, u64),
    /// `operand` raised to a literal integer power
    Powi(usize, i32),
    /// `-operand`
    Neg(usize),
    /// `1 / operand`
    Recip(usize),
    /// exponential
    Exp(usize),
    /// natural logarithm
    Ln(usize),
    /// sine
    Sin(usize),
    /// cosine
    Cos(usize),
    /// tangent
    Tan(usize),
    /// hyperbolic sine
    Sinh(usize),
    /// hyperbolic cosine
    Cosh(usize),
    /// hyperbolic tangent
    Tanh(usize),
}

impl Node {
    /// The first tape operand, if the operation has one.
    pub open spec fn first(self) -> Option<usize> {
        match self {
            Node::Var(_) => None,
            Node::Add(l, _) | Node::Sub(l, _) | Node::Mul(l, _) | Node::Div(l, _) | Node::Pow(
                l,
                _,
            ) => Some(l),
            Node::Addf(_, x) | Node::Mulf(_, x) => Some(x),
            Node::Subf(x, _) | Node::Powf(x, _) => Some(x),
            Node::Powi(x, _) => Some(x),
            Node::Neg(x) | Node::Recip(x) | Node::Exp(x) | Node::Ln(x) | Node::Sin(x) | Node::Cos(
                x,
            ) | Node::Tan(x) | Node::Sinh(x) | Node::Cosh(x) | Node::Tanh(x) => Some(x),
        }
    }

    /// The second tape operand, present for the five binary operations.
    pub open spec fn second(self) -> Option<usize> {
        match self {
            Node::Add(_, r) | Node::Sub(_, r) | Node::Mul(_, r) | Node::Div(_, r) | Node::Pow(
                _,
                r,
            ) => Some(r),
            _ => None,
        }
    }

    /// Whether the derivative rule of the operation reads operand values.
    /// The rules of `Add`, `Sub`, `Addf`, `Subf` and `Mulf` do not.
    pub open spec fn reads_operands(self) -> bool {
        match self {
            Node::Var(_) | Node::Add(_, _) | Node::Sub(_, _) | Node::Addf(_, _) | Node::Subf(
                _,
                _,
            ) | Node::Mulf(_, _) => false,
            _ => true,
        }
    }

    /// The derivative rule of the operation can be applied. The rule of an
    /// integer power `n` raises to the power `n - 1`, so `n` must not be the
    /// least `i32`; every other rule can always be applied.
    pub open spec fn rule_defined(self) -> bool {
        self matches Node::Powi(_, n) ==> n > i32::MIN
    }

    /// The value of the operation on operand values `a` (first) and `b`
    /// (second) under the arithmetic `f`. An absent operand is ignored.
    pub open spec fn value(self, a: u64, b: u64, f: spec_fn(Prim) -> u64) -> u64 {
        match self {
            Node::Var(_) => a,
            Node::Add(_, _) => f(Prim::Add(a, b)),
            Node::Addf(c, _) => f(Prim::Add(c, a)),
            Node::Sub(_, _) => f(Prim::Sub(a, b)),
            Node::Subf(_, c) => f(Prim::Sub(a, c)),
            Node::Mul(_, _) => f(Prim::Mul(a, b)),
            Node::Mulf(c, _) => f(Prim::Mul(c, a)),
            Node::Div(_, _) => f(Prim::Div(a, b)),
            Node::Pow(_, _) => f(Prim::Powf(a, b)),
            Node::Powf(_, c) => f(Prim::Powf(a, c)),
            Node::Powi(_, n) => f(Prim::Powi(a, n)),
            Node::Neg(_) => f(Prim::Neg(a)),
            Node::Recip(_) => f(Prim::Div(ONE, a)),
            Node::Exp(_) => f(Prim::Exp(a)),
            Node::Ln(_) => f(Prim::Ln(a)),
            Node::Sin(_) => f(Prim::Sin(a)),
            Node::Cos(_) => f(Prim::Cos(a)),
            Node::Tan(_) => f(Prim::Tan(a)),
            Node::Sinh(_) => f(Prim::Sinh(a)),
            Node::Cosh(_) => f(Prim::Cosh(a)),
            Node::Tanh(_) => f(Prim::Tanh(a)),
        }
    }

    /// The gradients that the operation hands to its first and second
    /// operand when `g` arrives from above, on operand values `a` and `b`.
    /// The second component is `ZERO` where there is no second operand.
    ///
    /// The result is meant where [`Node::rule_defined`] holds.
    ///
    /// Two rules are not the textbook derivative: `Neg` hands down
    /// `-g * a` where the textbook has `-g`, and `Pow` hands
    /// `ln(a) * a^(b-1) * g` to its exponent where the textbook has
    /// `ln(a) * a^b * g`.
    pub open spec fn pullback(self, a: u64, b: u64, g: u64, f: spec_fn(Prim) -> u64) -> (
        u64,
        u64,
    ) {
        match self {
            Node::Var(_) => (g, ZERO),
            Node::Add(_, _) => (g, g),
            Node::Addf(_, _) => (g, ZERO),
            Node::Sub(_, _) => (g, f(Prim::Neg(g))),
            Node::Subf(_, _) => (g, ZERO),
            Node::Mul(_, _) => (f(Prim::Mul(b, g)), f(Prim::Mul(a, g))),
            Node::Mulf(c, _) => (f(Prim::Mul(c, g)), ZERO),
            Node::Div(_, _) => (
                f(Prim::Div(g, b)),
                f(Prim::Div(f(Prim::Mul(f(Prim::Neg(g)), a)), f(Prim::Powi(b, 2)))),
            ),
            Node::Pow(_, _) => {
                let p = f(Prim::Powf(a, f(Prim::Sub(b, ONE))));
                (f(Prim::Mul(f(Prim::Mul(b, p)), g)), f(Prim::Mul(f(Prim::Mul(f(Prim::Ln(a)), p)), g)))
            },
            Node::Powf(_, c) => (
                f(Prim::Mul(f(Prim::Mul(c, f(Prim::Powf(a, f(Prim::Sub(c, ONE)))))), g)),
                ZERO,
            ),
            Node::Powi(_, n) => (
                f(Prim::Mul(f(Prim::Mul(f(Prim::FromInt(n)), f(Prim::Powi(a, (n - 1) as i32)))), g)),
                ZERO,
            ),
            Node::Neg(_) => (f(Prim::Mul(f(Prim::Neg(g)), a)), ZERO),
            Node::Recip(_) => (f(Prim::Div(f(Prim::Neg(g)), f(Prim::Powi(a, 2)))), ZERO),
            Node::Exp(_) => (f(Prim::Mul(f(Prim::Exp(a)), g)), ZERO),
            Node::Ln(_) => (f(Prim::Div(g, a)), ZERO),
            Node::Sin(_) => (f(Prim::Mul(f(Prim::Cos(a)), g)), ZERO),
            Node::Cos(_) => (f(Prim::Mul(f(Prim::Neg(f(Prim::Sin(a)))), g)), ZERO),
            Node::Tan(_) => (
                f(Prim::Mul(f(Prim::Add(ONE, f(Prim::Powi(f(Prim::Tan(a)), 2)))), g)),
                ZERO,
            ),
            Node::Sinh(_) => (f(Prim::Mul(f(Prim::Cosh(a)), g)), ZERO),
            Node::Cosh(_) => (f(Prim::Mul(f(Prim::Sinh(a)), g)), ZERO),
            Node::Tanh(_) => (
                f(Prim::Mul(f(Prim::Sub(ONE, f(Prim::Powi(f(Prim::Tanh(a)), 2)))), g)),
                ZERO,
            ),
        }
    }

    /// Computes [`Node::first`].
    pub fn first_operand(&self) -> (o: Option<usize>)
        ensures
            o == self.first(),
    {
        match *self {
            Node::Var(_) => None,
            Node::Add(l, _) | Node::Sub(l, _) | Node::Mul(l, _) | Node::Div(l, _) | Node::Pow(
                l,
                _,
            ) => Some(l),
            Node::Addf(_, x) | Node::Mulf(_, x) => Some(x),
            Node::Subf(x, _) | Node::Powf(x, _) => Some(x),
            Node::Powi(x, _) => Some(x),
            Node::Neg(x) | Node::Recip(x) | Node::Exp(x) | Node::Ln(x) | Node::Sin(x) | Node::Cos(
                x,
            ) | Node::Tan(x) | Node::Sinh(x) | Node::Cosh(x) | Node::Tanh(x) => Some(x),
        }
    }

    /// Computes [`Node::second`].
    pub fn second_operand(&self) -> (o: Option<usize>)
        ensures
            o == self.second(),
    {
        match *self {
            Node::Add(_, r) | Node::Sub(_, r) | Node::Mul(_, r) | Node::Div(_, r) | Node::Pow(
                _,
                r,
            ) => Some(r),
            _ => None,
        }
    }

    /// Computes [`Node::reads_operands`].
    pub fn needs_values(&self) -> (b: bool)
        ensures
            b == self.reads_operands(),
    {
        match *self {
            Node::Var(_) | Node::Add(_, _) | Node::Sub(_, _) | Node::Addf(_, _) | Node::Subf(
                _,
                _,
            ) | Node::Mulf(_, _) => false,
            _ => true,
        }
    }

    /// Decides [`Node::rule_defined`].
    pub fn has_rule(&self) -> (b: bool)
        ensures
            b == self.rule_defined(),
    {
        match *self {
            Node::Powi(_, n) => n > i32::MIN,
            _ => true,
        }
    }

    /// Evaluates the operation on operand values `a` and `b`, asking `unit`
    /// for the one elementary operation that it takes.
    pub fn apply<A: Fn(Prim) -> u64>(&self, a: u64, b: u64, unit: &A) -> (v: u64)
        requires
            computes(*unit),
            !(*self is Var),
        ensures
            v == self.value(a, b, arith_of(*unit)),
    {
        match *self {
            Node::Var(_) => unreached(),
            Node::Add(_, _) => unit(Prim::Add(a, b)),
            Node::Addf(c, _) => unit(Prim::Add(c, a)),
            Node::Sub(_, _) => unit(Prim::Sub(a, b)),
            Node::Subf(_, c) => unit(Prim::Sub(a, c)),
            Node::Mul(_, _) => unit(Prim::Mul(a, b)),
            Node::Mulf(c, _) => unit(Prim::Mul(c, a)),
            Node::Div(_, _) => unit(Prim::Div(a, b)),
            Node::Pow(_, _) => unit(Prim::Powf(a, b)),
            Node::Powf(_, c) => unit(Prim::Powf(a, c)),
            Node::Powi(_, n) => unit(Prim::Powi(a, n)),
            Node::Neg(_) => unit(Prim::Neg(a)),
            Node::Recip(_) => unit(Prim::Div(ONE, a)),
            Node::Exp(_) => unit(Prim::Exp(a)),
            Node::Ln(_) => unit(Prim::Ln(a)),
            Node::Sin(_) => unit(Prim::Sin(a)),
            Node::Cos(_) => unit(Prim::Cos(a)),
            Node::Tan(_) => unit(Prim::Tan(a)),
            Node::Sinh(_) => unit(Prim::Sinh(a)),
            Node::Cosh(_) => unit(Prim::Cosh(a)),
            Node::Tanh(_) => unit(Prim::Tanh(a)),
        }
    }

    /// Applies the derivative rule of the operation to the gradient `g`
    /// arriving from above, on operand values `a` and `b`.
    pub fn differentiate<A: Fn(Prim) -> u64>(&self, a: u64, b: u64, g: u64, unit: &A) -> (d: (
        u64,
        u64,
    ))
        requires
            computes(*unit),
            !(*self is Var),
            self.rule_defined(),
        ensures
            d == self.pullback(a, b, g, arith_of(*unit)),
    {
        match *self {
            Node::Var(_) => unreached(),
            Node::Add(_, _) => (g, g),
            Node::Addf(_, _) => (g, ZERO),
            Node::Sub(_, _) => (g, unit(Prim::Neg(g))),
            Node::Subf(_, _) => (g, ZERO),
            Node::Mul(_, _) => (unit(Prim::Mul(b, g)), unit(Prim::Mul(a, g))),
            Node::Mulf(c, _) => (unit(Prim::Mul(c, g)), ZERO),
            Node::Div(_, _) => {
                let to_left = unit(Prim::Div(g, b));
                let scaled = unit(Prim::Mul(unit(Prim::Neg(g)), a));
                (to_left, unit(Prim::Div(scaled, unit(Prim::Powi(b, 2)))))
            },
            Node::Pow(_, _) => {
                let p = unit(Prim::Powf(a, unit(Prim::Sub(b, ONE))));
                let to_left = unit(Prim::Mul(unit(Prim::Mul(b, p)), g));
                let to_right = unit(Prim::Mul(unit(Prim::Mul(unit(Prim::Ln(a)), p)), g));
                (to_left, to_right)
            },
            Node::Powf(_, c) => {
                let p = unit(Prim::Powf(a, unit(Prim::Sub(c, ONE))));
                (unit(Prim::Mul(unit(Prim::Mul(c, p)), g)), ZERO)
            },
            Node::Powi(_, n) => {
                let p = unit(Prim::Powi(a, n - 1));
                (unit(Prim::Mul(unit(Prim::Mul(unit(Prim::FromInt(n)), p)), g)), ZERO)
            },
            Node::Neg(_) => (unit(Prim::Mul(unit(Prim::Neg(g)), a)), ZERO),
            Node::Recip(_) => (unit(Prim::Div(unit(Prim::Neg(g)), unit(Prim::Powi(a, 2)))), ZERO),
            Node::Exp(_) => (unit(Prim::Mul(unit(Prim::Exp(a)), g)), ZERO),
            Node::Ln(_) => (unit(Prim::Div(g, a)), ZERO),
            Node::Sin(_) => (unit(Prim::Mul(unit(Prim::Cos(a)), g)), ZERO),
            Node::Cos(_) => (unit(Prim::Mul(unit(Prim::Neg(unit(Prim::Sin(a)))), g)), ZERO),
            Node::Tan(_) => {
                let square = unit(Prim::Powi(unit(Prim::Tan(a)), 2));
                (unit(Prim::Mul(unit(Prim::Add(ONE, square)), g)), ZERO)
            },
            Node::Sinh(_) => (unit(Prim::Mul(unit(Prim::Cosh(a)), g)), ZERO),
            Node::Cosh(_) => (unit(Prim::Mul(unit(Prim::Sinh(a)), g)), ZERO),
            Node::Tanh(_) => {
                let square = unit(Prim::Powi(unit(Prim::Tanh(a)), 2));
                (unit(Prim::Mul(unit(Prim::Sub(ONE, square)), g)), ZERO)
            },
        }
    }
}

} // verus!
