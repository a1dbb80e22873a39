//! Account identifiers.
//!
//! Components, users and token contracts are all addressed by opaque
//! fixed-size identifiers. The library models them as `u64` values; the
//! host's wider byte-array addresses map onto them one for one as far as the
//! governance logic is concerned, since the logic only ever compares them
//! for equality.

use vstd::prelude::*;

verus! {

/// An opaque address: a user account, a component or a token contract.
pub type AccountId = u64;

/// The reserved sentinel address that stands for the host's native currency
/// in the treasury's token-address space. It is never registered as a token.
pub const NATIVE_TOKEN: AccountId = 0xeeee_eeee_eeee_eeee;

/// The all-zero address, used where the host would hand out a default value.
pub const ZERO_ACCOUNT: AccountId = 0;

} // verus!
