//! Governance and treasury engine for a modular decentralized organization.
//!
//! Four cooperating components form the core:
//!
//! - [`auth::Auth`], a capability registry: named actions keyed by
//!   `(contract, function)` and a grant table answering "may this account
//!   perform that action?";
//! - [`org::OrgManager`], a membership registry: moderators, members and
//!   applicants of one organization, delegating vote-related grants to
//!   [`auth::Auth`];
//! - [`vault::VaultManager`], a treasury: a token registry, a modeled native
//!   balance and an append-only transfer ledger;
//! - [`vote::VoteManager`], a proposal engine: proposals with a fixed voting
//!   window, a shared choice arena, quorum and threshold arithmetic, and an
//!   optional treasury trigger on success.
//!
//! The execution host (caller identity, clock, attached value, event
//! delivery, fungible-token contracts) is kept outside the library: every
//! entry point takes what it needs from the host as plain parameters, and
//! calls into a fungible token go through the [`token::TokenPort`] trait,
//! of which nothing is assumed. Collaborating components are passed by
//! mutable reference, so a whole governance scenario can be driven and
//! reasoned about as ordinary verified code.

pub mod account;
pub mod amap;
pub mod auth;
pub mod base;
pub mod org;
pub mod page;
pub mod text;
pub mod token;
pub mod vault;
pub mod vote;
