//! Core of a multi-currency stabilisation system: a ledger of collateralised
//! positions, a treasury that pools surplus and bad debt, and an elasticity
//! engine that expands or contracts the supply of pegged currencies when
//! their market price drifts from the peg.
//!
//! The external collaborators of the system — the multi-currency balance
//! ledger, the price oracle, the swap venue and the auction book — are
//! modelled as explicit state passed into each operation, so that every
//! rule of the system is stated and proved over plain values.

use vstd::prelude::*;

pub mod sums;
pub mod currency;
pub mod auction;
pub mod dex;
pub mod ledger;
pub mod lookup;
pub mod oracle;
pub mod positions;
pub mod serp;
pub mod test_support;
pub mod treasury;

verus! {

/// An unsigned currency amount.
pub type Balance = u128;

/// A signed adjustment applied to a `Balance`.
pub type Amount = i128;

/// An account identifier.
pub type AccountId = u128;

/// A price magnitude, as the oracle reports it.
pub type Price = u128;

/// A fixed-point ratio, scaled by `SCALE`.
pub type Ratio = u128;

/// The fixed-point scale of prices and ratios.
pub const SCALE: u128 = 1_000_000_000_000_000_000;

/// Every way an operation of this crate can decline.
#[derive(Clone, Copy, Debug, PartialEq, Eq, Structural)]
pub enum Error {
    /// An arithmetic step would fall below zero.
    Underflow,
    /// An arithmetic step would exceed the integer range.
    Overflow,
    /// A ledger account does not hold the amount asked of it.
    InsufficientBalance,
    /// The operation was invoked on a currency outside its recognised set.
    InvalidCurrencyType,
    /// A zero amount where a non-zero one is required.
    InvalidAmount,
    /// The oracle has no usable price for a required currency.
    InvalidFeedPrice,
    /// A contraction would drive the supply below its policy floor.
    MinSupplyReached,
    /// A swap path does not start and end where the operation demands.
    InvalidSwapPath,
    /// The swap venue cannot fill the order within its bounds.
    CannotSwap,
    /// The treasury does not hold enough free reserve of the currency.
    ReserveNotEnough,
    /// The surplus pool cannot cover the requested auction.
    SerplusPoolNotEnough,
    /// Adding to the standard pool would exceed the integer range.
    StandardPoolOverflow,
    /// The standard pool cannot cover the requested auction.
    StandardPoolNotEnough,
}

} // verus!
