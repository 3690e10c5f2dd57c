//! The ways an operation on a pool can fail.

use vstd::prelude::*;

verus! {

/// Why an operation was refused. A refused operation changes nothing.
#[derive(Clone, Copy, Debug, PartialEq, Eq, Structural)]
pub enum CustomError {
    /// The trade size is zero.
    InvalidAmount,
    /// The metadata given at creation is longer than the pool can store.
    InvalidMetadata,
    /// A pool for this asset has already been created.
    AlreadyExists,
    /// Not enough tokens in supply to sell.
    InsufficientSupply,
    /// A balance is too small for what is to be taken from it.
    InsufficientFunds,
    /// A step of the computation left the unsigned 64-bit range.
    ArithmeticOverflow,
}

} // verus!
