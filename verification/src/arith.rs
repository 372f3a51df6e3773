//! The scalar interface: bit patterns, elementary requests and the
//! arithmetic unit that answers them.

use vstd::prelude::*;

verus! {

/// Bit pattern of the scalar `0.0`, the gradient of a slot that nothing has
/// reached yet.
pub const ZERO: u64 = 0;

/// Bit pattern of the scalar `1.0`, the seed of a backward pass.
pub const ONE: u64 = 0x3FF0_0000_0000_0000;

/// One elementary operation together with its operands.
///
/// Scalar operands are bit patterns; `Powi` carries its integer exponent and
/// `FromInt` the integer to convert.
#[derive(Clone, Copy, Debug)]
pub enum Prim {
    /// `a + b`
    Add(u64, u64),
    /// `a - b`
    Sub(u64, u64),
    /// `a * b`
    Mul(u64, u64),
    /// `a / b`
    Div(u64, u64),
    /// `a` raised to the scalar power `b`
    Powf(u64, u64),
    /// `a` raised to the integer power `n`
    Powi(u64, i32),
    /// `-a`
    Neg(u64),
    /// `e` raised to `a`
    Exp(u64),
    /// natural logarithm of `a`
    Ln(u64),
    /// sine of `a`
    Sin(u64),
    /// cosine of `a`
    Cos(u64),
    /// tangent of `a`
    Tan(u64),
    /// hyperbolic sine of `a`
    Sinh(u64),
    /// hyperbolic cosine of `a`
    Cosh(u64),
    /// hyperbolic tangent of `a`
    Tanh(u64),
    /// the scalar nearest to the integer `n`
    FromInt(i32),
}

/// The answers of `unit`, as a function of the request.
pub open spec fn arith_of<A: Fn(Prim) -> u64>(unit: A) -> spec_fn(Prim) -> u64 {
    |p: Prim| choose|r: u64| unit.ensures((p,), r)
}

/// `unit` accepts every request and answers each request in one way only.
pub open spec fn computes<A: Fn(Prim) -> u64>(unit: A) -> bool {
    &&& forall|p: Prim| #[trigger] unit.requires((p,))
    &&& forall|p: Prim, r: u64| #[trigger] unit.ensures((p,), r) ==> r == arith_of(unit)(p)
}

} // verus!
