//! Faults that abort a vault operation. An operation that fails leaves the
//! vault state as it found it, unless its contract says otherwise.

use vstd::prelude::*;

verus! {

/// The ways in which integer arithmetic on pool quantities can fail.
#[derive(Clone, Copy, Debug, PartialEq, Eq, Structural)]
pub enum ArithmeticFault {
    /// A quantity does not fit in 64 bits.
    Overflow,
    /// A redemption was priced against a claim supply of zero.
    DivisionByZero,
    /// More would leave the pool, or the claim supply, than it holds.
    Underflow,
}

/// Why a vault operation was refused.
#[derive(Clone, Copy, Debug, PartialEq, Eq, Structural)]
pub enum VaultError {
    /// Integer arithmetic failed.
    Arithmetic(ArithmeticFault),
    /// Claim tokens are outstanding although the pool holds nothing, so a
    /// deposit has no price.
    InconsistentState,
    /// The oracle reported no yields at all.
    NoYieldData,
}

} // verus!
