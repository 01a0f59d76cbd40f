//! The arithmetic that the limiter is built on.
//!
//! The limiter rounds nothing itself. Whoever runs it supplies the unit that
//! multiplies, divides, adds, subtracts and exponentiates single-precision
//! patterns, and every contract of the library says which operations were
//! asked of that unit, on which operands, and where each result went.

use vstd::prelude::*;

verus! {

/// One request to the arithmetic unit, with its operands.
#[derive(Clone, Copy, Debug)]
pub enum Operation {
    /// The product of the two operands.
    Multiply(u32, u32),
    /// The first operand divided by the second.
    Divide(u32, u32),
    /// The sum of the two operands.
    Add(u32, u32),
    /// The first operand less the second.
    Subtract(u32, u32),
    /// The first operand raised to the power of the second.
    Power(u32, u32),
    /// Euler's number raised to the power of the operand.
    Exponential(u32),
}

/// The unit answers every request, whatever the operands.
pub open spec fn total<K: Fn(Operation) -> u32>(k: &K) -> bool {
    forall|op: Operation| call_requires(*k, (op,))
}

/// `r` is an answer of the unit to the request `op`.
pub open spec fn computes<K: Fn(Operation) -> u32>(k: &K, op: Operation, r: u32) -> bool {
    call_ensures(*k, (op,), r)
}

/// Puts one request to the unit.
pub fn evaluate<K: Fn(Operation) -> u32>(k: &K, op: Operation) -> (r: u32)
    requires
        total(k),
    ensures
        computes(k, op, r),
{
    k(op)
}

} // verus!
