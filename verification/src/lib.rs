//! A minimal on-ledger exchange.
//!
//! Accounts place buy or sell orders for a token, and a settlement routine
//! matches an execution request against a resting order, moving token
//! balances between the two parties. The crate has two components: the
//! balance ledger, the only place where value moves, and the order book
//! engine, which owns the order records and the counter minting their ids.

pub mod ledger;
pub mod order_book;

use vstd::prelude::*;

verus! {

/// Why an exchange call was rejected. Every failure is detected before any
/// state mutation and reported to the caller; no call commits partial state.
#[derive(Clone, Copy, Debug, PartialEq, Eq, Structural)]
pub enum DexError {
    /// A zero amount or price was supplied.
    InvalidOrder,
    /// The referenced order id has no stored record.
    OrderNotFound,
    /// Execution was attempted against an order that is already filled.
    OrderAlreadyFilled,
    /// The relevant party's balance is below the required amount.
    InsufficientBalance,
    /// An arithmetic step would exceed the representable range.
    Overflow,
    /// The counterparty equals the order's owner.
    SelfTrade,
}

/// Which side of the trade an order's owner takes.
#[derive(Clone, Copy, Debug, PartialEq, Eq, Structural)]
pub enum Side {
    /// The owner wants to receive the token.
    Buy,
    /// The owner is delivering the token.
    Sell,
}

} // verus!
