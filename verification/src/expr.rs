//! Symbolic expressions: a function written as a tree before any tape
//! exists.

use vstd::prelude::*;
use crate::arith::{arith_of, computes, Prim, ONE};
use crate::node::Node;

verus! {

/// An expression tree over the operator set of the tape. A `Symbol` names
/// the tape slot whose value it stands for; every other variant owns its
/// operands.
#[derive(Debug)]
pub enum Expr {
    Symbol(usize),
    Add(Box<Expr>, Box<Expr>),
    Addf(u64, Box<Expr>),
    Sub(Box<Expr>, Box<Expr>),
    Subf(Box<Expr>, u64),
    Mul(Box<Expr>, Box<Expr>),
    Mulf(u64, Box<Expr>),
    Div(Box<Expr>, Box<Expr>),
    Pow(Box<Expr>, Box<Expr>),
    Powf(Box<Expr>, u64),
    Powi(Box<Expr>, i32),
    Neg(Box<Expr>),
    Recip(Box<Expr>),
    Exp(Box<Expr>),
    Ln(Box<Expr>),
    Sin(Box<Expr>),
    Cos(Box<Expr>),
    Tan(Box<Expr>),
    Sinh(Box<Expr>),
    Cosh(Box<Expr>),
    Tanh(Box<Expr>),
}

impl Clone for Expr {
    fn clone(&self) -> (e: Expr)
        ensures
            e == *self,
        decreases self,
    {
        match self {
            Expr::Symbol(i) => Expr::Symbol(*i),
            Expr::Add(l, r) => Expr::Add(Box::new((**l).clone()), Box::new((**r).clone())),
            Expr::Addf(c, x) => Expr::Addf(*c, Box::new((**x).clone())),
            Expr::Sub(l, r) => Expr::Sub(Box::new((**l).clone()), Box::new((**r).clone())),
            Expr::Subf(x, c) => Expr::Subf(Box::new((**x).clone()), *c),
            Expr::Mul(l, r) => Expr::Mul(Box::new((**l).clone()), Box::new((**r).clone())),
            Expr::Mulf(c, x) => Expr::Mulf(*c, Box::new((**x).clone())),
            Expr::Div(l, r) => Expr::Div(Box::new((**l).clone()), Box::new((**r).clone())),
            Expr::Pow(l, r) => Expr::Pow(Box::new((**l).clone()), Box::new((**r).clone())),
            Expr::Powf(x, c) => Expr::Powf(Box::new((**x).clone()), *c),
            Expr::Powi(x, n) => Expr::Powi(Box::new((**x).clone()), *n),
            Expr::Neg(x) => Expr::Neg(Box::new((**x).clone())),
            Expr::Recip(x) => Expr::Recip(Box::new((**x).clone())),
            Expr::Exp(x) => Expr::Exp(Box::new((**x).clone())),
            Expr::Ln(x) => Expr::Ln(Box::new((**x).clone())),
            Expr::Sin(x) => Expr::Sin(Box::new((**x).clone())),
            Expr::Cos(x) => Expr::Cos(Box::new((**x).clone())),
            Expr::Tan(x) => Expr::Tan(Box::new((**x).clone())),
            Expr::Sinh(x) => Expr::Sinh(Box::new((**x).clone())),
            Expr::Cosh(x) => Expr::Cosh(Box::new((**x).clone())),
            Expr::Tanh(x) => Expr::Tanh(Box::new((**x).clone())),
        }
    }
}

impl Expr {
    /// Every symbol of the tree names a slot below `n`.
    pub open spec fn symbols_below(self, n: int) -> bool
        decreases self,
    {
        match self {
            Expr::Symbol(i) => i < n,
            Expr::Add(l, r) | Expr::Sub(l, r) | Expr::Mul(l, r) | Expr::Div(l, r) | Expr::Pow(
                l,
                r,
            ) => l.symbols_below(n) && r.symbols_below(n),
            Expr::Addf(_, x) | Expr::Mulf(_, x) => x.symbols_below(n),
            Expr::Subf(x, _) | Expr::Powf(x, _) => x.symbols_below(n),
            Expr::Powi(x, _) => x.symbols_below(n),
            Expr::Neg(x) | Expr::Recip(x) | Expr::Exp(x) | Expr::Ln(x) | Expr::Sin(x) | Expr::Cos(
                x,
            ) | Expr::Tan(x) | Expr::Sinh(x) | Expr::Cosh(x) | Expr::Tanh(x) => x.symbols_below(n),
        }
    }

    /// The derivative rule of every operation of the tree can be applied:
    /// no integer power has the least `i32` for its exponent.
    pub open spec fn rules_defined(self) -> bool
        decreases self,
    {
        match self {
            Expr::Symbol(_) => true,
            Expr::Add(l, r) | Expr::Sub(l, r) | Expr::Mul(l, r) | Expr::Div(l, r) | Expr::Pow(
                l,
                r,
            ) => l.rules_defined() && r.rules_defined(),
            Expr::Addf(_, x) | Expr::Mulf(_, x) => x.rules_defined(),
            Expr::Subf(x, _) | Expr::Powf(x, _) => x.rules_defined(),
            Expr::Powi(x, n) => n > i32::MIN && x.rules_defined(),
            Expr::Neg(x) | Expr::Recip(x) | Expr::Exp(x) | Expr::Ln(x) | Expr::Sin(x) | Expr::Cos(
                x,
            ) | Expr::Tan(x) | Expr::Sinh(x) | Expr::Cosh(x) | Expr::Tanh(x) => x.rules_defined(),
        }
    }

    /// The number of operations in the tree; symbols count for nothing.
    pub open spec fn size(self) -> nat
        decreases self,
    {
        match self {
            Expr::Symbol(_) => 0,
            Expr::Add(l, r) | Expr::Sub(l, r) | Expr::Mul(l, r) | Expr::Div(l, r) | Expr::Pow(
                l,
                r,
            ) => l.size() + r.size() + 1,
            Expr::Addf(_, x) | Expr::Mulf(_, x) => x.size() + 1,
            Expr::Subf(x, _) | Expr::Powf(x, _) => x.size() + 1,
            Expr::Powi(x, _) => x.size() + 1,
            Expr::Neg(x) | Expr::Recip(x) | Expr::Exp(x) | Expr::Ln(x) | Expr::Sin(x) | Expr::Cos(
                x,
            ) | Expr::Tan(x) | Expr::Sinh(x) | Expr::Cosh(x) | Expr::Tanh(x) => x.size() + 1,
        }
    }

    /// The tape record that the root operation of the tree becomes once
    /// its operands sit in slots `a` and `b`. A symbol becomes no record;
    /// for it the result is of no account.
    pub open spec fn node(self, a: usize, b: usize) -> Node {
        match self {
            Expr::Symbol(i) => Node::Var(i),
            Expr::Add(_, _) => Node::Add(a, b),
            Expr::Addf(c, _) => Node::Addf(c, a),
            Expr::Sub(_, _) => Node::Sub(a, b),
            Expr::Subf(_, c) => Node::Subf(a, c),
            Expr::Mul(_, _) => Node::Mul(a, b),
            Expr::Mulf(c, _) => Node::Mulf(c, a),
            Expr::Div(_, _) => Node::Div(a, b),
            Expr::Pow(_, _) => Node::Pow(a, b),
            Expr::Powf(_, c) => Node::Powf(a, c),
            Expr::Powi(_, n) => Node::Powi(a, n),
            Expr::Neg(_) => Node::Neg(a),
            Expr::Recip(_) => Node::Recip(a),
            Expr::Exp(_) => Node::Exp(a),
            Expr::Ln(_) => Node::Ln(a),
            Expr::Sin(_) => Node::Sin(a),
            Expr::Cos(_) => Node::Cos(a),
            Expr::Tan(_) => Node::Tan(a),
            Expr::Sinh(_) => Node::Sinh(a),
            Expr::Cosh(_) => Node::Cosh(a),
            Expr::Tanh(_) => Node::Tanh(a),
        }
    }

    /// The scalar that the tree denotes when symbol `i` stands for
    /// `env(i)`: ordinary evaluation of the arithmetic expression under
    /// the arithmetic `f`.
    pub open spec fn eval(self, env: spec_fn(int) -> u64, f: spec_fn(Prim) -> u64) -> u64
        decreases self,
    {
        match self {
            Expr::Symbol(i) => env(i as int),
            Expr::Add(l, r) => f(Prim::Add(l.eval(env, f), r.eval(env, f))),
            Expr::Addf(c, x) => f(Prim::Add(c, x.eval(env, f))),
            Expr::Sub(l, r) => f(Prim::Sub(l.eval(env, f), r.eval(env, f))),
            Expr::Subf(x, c) => f(Prim::Sub(x.eval(env, f), c)),
            Expr::Mul(l, r) => f(Prim::Mul(l.eval(env, f), r.eval(env, f))),
            Expr::Mulf(c, x) => f(Prim::Mul(c, x.eval(env, f))),
            Expr::Div(l, r) => f(Prim::Div(l.eval(env, f), r.eval(env, f))),
            Expr::Pow(l, r) => f(Prim::Powf(l.eval(env, f), r.eval(env, f))),
            Expr::Powf(x, c) => f(Prim::Powf(x.eval(env, f), c)),
            Expr::Powi(x, n) => f(Prim::Powi(x.eval(env, f), n)),
            Expr::Neg(x) => f(Prim::Neg(x.eval(env, f))),
            Expr::Recip(x) => f(Prim::Div(ONE, x.eval(env, f))),
            Expr::Exp(x) => f(Prim::Exp(x.eval(env, f))),
            Expr::Ln(x) => f(Prim::Ln(x.eval(env, f))),
            Expr::Sin(x) => f(Prim::Sin(x.eval(env, f))),
            Expr::Cos(x) => f(Prim::Cos(x.eval(env, f))),
            Expr::Tan(x) => f(Prim::Tan(x.eval(env, f))),
            Expr::Sinh(x) => f(Prim::Sinh(x.eval(env, f))),
            Expr::Cosh(x) => f(Prim::Cosh(x.eval(env, f))),
            Expr::Tanh(x) => f(Prim::Tanh(x.eval(env, f))),
        }
    }

    /// Decides [`Expr::symbols_below`].
    pub fn has_symbols_below(&self, n: usize) -> (b: bool)
        ensures
            b == self.symbols_below(n as int),
        decreases self,
    {
        match self {
            Expr::Symbol(i) => *i < n,
            Expr::Add(l, r) | Expr::Sub(l, r) | Expr::Mul(l, r) | Expr::Div(l, r) | Expr::Pow(
                l,
                r,
            ) => l.has_symbols_below(n) && r.has_symbols_below(n),
            Expr::Addf(_, x) | Expr::Mulf(_, x) => x.has_symbols_below(n),
            Expr::Subf(x, _) | Expr::Powf(x, _) => x.has_symbols_below(n),
            Expr::Powi(x, _) => x.has_symbols_below(n),
            Expr::Neg(x) | Expr::Recip(x) | Expr::Exp(x) | Expr::Ln(x) | Expr::Sin(x) | Expr::Cos(
                x,
            ) | Expr::Tan(x) | Expr::Sinh(x) | Expr::Cosh(x) | Expr::Tanh(x) => x.has_symbols_below(n),
        }
    }

    /// Decides [`Expr::rules_defined`].
    pub fn has_rules_defined(&self) -> (b: bool)
        ensures
            b == self.rules_defined(),
        decreases self,
    {
        match self {
            Expr::Symbol(_) => true,
            Expr::Add(l, r) | Expr::Sub(l, r) | Expr::Mul(l, r) | Expr::Div(l, r) | Expr::Pow(
                l,
                r,
            ) => l.has_rules_defined() && r.has_rules_defined(),
            Expr::Addf(_, x) | Expr::Mulf(_, x) => x.has_rules_defined(),
            Expr::Subf(x, _) | Expr::Powf(x, _) => x.has_rules_defined(),
            Expr::Powi(x, n) => *n > i32::MIN && x.has_rules_defined(),
            Expr::Neg(x) | Expr::Recip(x) | Expr::Exp(x) | Expr::Ln(x) | Expr::Sin(x) | Expr::Cos(
                x,
            ) | Expr::Tan(x) | Expr::Sinh(x) | Expr::Cosh(x) | Expr::Tanh(x) => x.has_rules_defined(),
        }
    }

    /// `-self`
    pub fn neg(self) -> (e: Expr)
        ensures
            e == Expr::Neg(Box::new(self)),
    {
        Expr::Neg(Box::new(self))
    }

    /// `self + rhs`
    pub fn add(self, rhs: Expr) -> (e: Expr)
        ensures
            e == Expr::Add(Box::new(self), Box::new(rhs)),
    {
        Expr::Add(Box::new(self), Box::new(rhs))
    }

    /// `self + c` for a literal `c`
    pub fn add_scalar(self, c: u64) -> (e: Expr)
        ensures
            e == Expr::Addf(c, Box::new(self)),
    {
        Expr::Addf(c, Box::new(self))
    }

    /// `c + rhs` for a literal `c`
    pub fn scalar_add(c: u64, rhs: Expr) -> (e: Expr)
        ensures
            e == Expr::Addf(c, Box::new(rhs)),
    {
        Expr::Addf(c, Box::new(rhs))
    }

    /// `self - rhs`
    pub fn sub(self, rhs: Expr) -> (e: Expr)
        ensures
            e == Expr::Sub(Box::new(self), Box::new(rhs)),
    {
        Expr::Sub(Box::new(self), Box::new(rhs))
    }

    /// `self - c` for a literal `c`
    pub fn sub_scalar(self, c: u64) -> (e: Expr)
        ensures
            e == Expr::Subf(Box::new(self), c),
    {
        Expr::Subf(Box::new(self), c)
    }

    /// `c - rhs` for a literal `c`, built as `-(rhs - c)`
    pub fn scalar_sub(c: u64, rhs: Expr) -> (e: Expr)
        ensures
            e == Expr::Neg(Box::new(Expr::Subf(Box::new(rhs), c))),
    {
        Expr::Neg(Box::new(Expr::Subf(Box::new(rhs), c)))
    }

    /// `self * rhs`
    pub fn mul(self, rhs: Expr) -> (e: Expr)
        ensures
            e == Expr::Mul(Box::new(self), Box::new(rhs)),
    {
        Expr::Mul(Box::new(self), Box::new(rhs))
    }

    /// `self * c` for a literal `c`
    pub fn mul_scalar(self, c: u64) -> (e: Expr)
        ensures
            e == Expr::Mulf(c, Box::new(self)),
    {
        Expr::Mulf(c, Box::new(self))
    }

    /// `c * rhs` for a literal `c`
    pub fn scalar_mul(c: u64, rhs: Expr) -> (e: Expr)
        ensures
            e == Expr::Mulf(c, Box::new(rhs)),
    {
        Expr::Mulf(c, Box::new(rhs))
    }

    /// `self / rhs`
    pub fn div(self, rhs: Expr) -> (e: Expr)
        ensures
            e == Expr::Div(Box::new(self), Box::new(rhs)),
    {
        Expr::Div(Box::new(self), Box::new(rhs))
    }

    /// `self / c` for a literal `c`, built as `(1 / c) * self`; `unit`
    /// computes the quotient.
    pub fn div_scalar<A: Fn(Prim) -> u64>(self, c: u64, unit: &A) -> (e: Expr)
        requires
            computes(*unit),
        ensures
            e == Expr::Mulf(arith_of(*unit)(Prim::Div(ONE, c)), Box::new(self)),
    {
        Expr::Mulf(unit(Prim::Div(ONE, c)), Box::new(self))
    }

    /// `c / rhs` for a literal `c`, built as `c * (1 / rhs)`
    pub fn scalar_div(c: u64, rhs: Expr) -> (e: Expr)
        ensures
            e == Expr::Mulf(c, Box::new(Expr::Recip(Box::new(rhs)))),
    {
        Expr::Mulf(c, Box::new(Expr::Recip(Box::new(rhs))))
    }

    /// `self` raised to `rhs`
    pub fn pow(&self, rhs: Expr) -> (e: Expr)
        ensures
            e == Expr::Pow(Box::new(*self), Box::new(rhs)),
    {
        Expr::Pow(Box::new(self.clone()), Box::new(rhs))
    }

    /// `self` raised to the literal scalar `c`
    pub fn powf(&self, c: u64) -> (e: Expr)
        ensures
            e == Expr::Powf(Box::new(*self), c),
    {
        Expr::Powf(Box::new(self.clone()), c)
    }

    /// `self` raised to the literal integer `n`
    pub fn powi(&self, n: i32) -> (e: Expr)
        ensures
            e == Expr::Powi(Box::new(*self), n),
    {
        Expr::Powi(Box::new(self.clone()), n)
    }

    /// exponential of `self`
    pub fn exp(&self) -> (e: Expr)
        ensures
            e == Expr::Exp(Box::new(*self)),
    {
        Expr::Exp(Box::new(self.clone()))
    }

    /// natural logarithm of `self`
    pub fn ln(&self) -> (e: Expr)
        ensures
            e == Expr::Ln(Box::new(*self)),
    {
        Expr::Ln(Box::new(self.clone()))
    }

    /// sine of `self`
    pub fn sin(&self) -> (e: Expr)
        ensures
            e == Expr::Sin(Box::new(*self)),
    {
        Expr::Sin(Box::new(self.clone()))
    }

    /// cosine of `self`
    pub fn cos(&self) -> (e: Expr)
        ensures
            e == Expr::Cos(Box::new(*self)),
    {
        Expr::Cos(Box::new(self.clone()))
    }

    /// tangent of `self`
    pub fn tan(&self) -> (e: Expr)
        ensures
            e == Expr::Tan(Box::new(*self)),
    {
        Expr::Tan(Box::new(self.clone()))
    }

    /// hyperbolic sine of `self`
    pub fn sinh(&self) -> (e: Expr)
        ensures
            e == Expr::Sinh(Box::new(*self)),
    {
        Expr::Sinh(Box::new(self.clone()))
    }

    /// hyperbolic cosine of `self`
    pub fn cosh(&self) -> (e: Expr)
        ensures
            e == Expr::Cosh(Box::new(*self)),
    {
        Expr::Cosh(Box::new(self.clone()))
    }

    /// hyperbolic tangent of `self`
    pub fn tanh(&self) -> (e: Expr)
        ensures
            e == Expr::Tanh(Box::new(*self)),
    {
        Expr::Tanh(Box::new(self.clone()))
    }

    /// sine and cosine of `self`, in this order
    pub fn sin_cos(&self) -> (sc: (Expr, Expr))
        ensures
            sc == (Expr::Sin(Box::new(*self)), Expr::Cos(Box::new(*self))),
    {
        (Expr::Sin(Box::new(self.clone())), Expr::Cos(Box::new(self.clone())))
    }

    /// hyperbolic sine and cosine of `self`, in this order
    pub fn sinh_cosh(&self) -> (sc: (Expr, Expr))
        ensures
            sc == (Expr::Sinh(Box::new(*self)), Expr::Cosh(Box::new(*self))),
    {
        (Expr::Sinh(Box::new(self.clone())), Expr::Cosh(Box::new(self.clone())))
    }
}

} // verus!
