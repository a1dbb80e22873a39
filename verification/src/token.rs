//! The fungible-token collaborator, as the treasury and the proposal engine
//! see it.
//!
//! Token contracts live outside this library, addressed by their account
//! identifiers; the host dispatches calls to them. A [`TokenPort`] value
//! stands for that dispatch: the treasury asks it for a token's name, symbol
//! and balances and tells it to move funds. Nothing is assumed of any of its
//! answers — a transfer may report failure, a balance may be anything — and
//! every contract in the library states what holds of each possible outcome.

use crate::account::AccountId;
use vstd::prelude::*;

verus! {

/// Dispatch to the fungible-token contracts, by token address.
pub trait TokenPort {
    /// The token's display symbol.
    fn symbol(&self, token: AccountId) -> String;

    /// The token's display name.
    fn name(&self, token: AccountId) -> String;

    /// `account`'s balance of `token`.
    fn balance_of(&self, token: AccountId, account: AccountId) -> u64;

    /// Moves `value` from the calling component's holdings of `token` to
    /// `to`; reports whether the token accepted the transfer.
    fn transfer(&mut self, token: AccountId, to: AccountId, value: u64) -> bool;

    /// Moves `value` of `token` from `from` to `to`; reports whether the
    /// token accepted the transfer.
    fn transfer_from(&mut self, token: AccountId, from: AccountId, to: AccountId, value: u64) -> bool;
}

} // verus!
