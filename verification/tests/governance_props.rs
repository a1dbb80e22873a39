//! End-to-end governance scenarios: the proposal lifecycle against the
//! treasury, and the shared pagination arithmetic on concrete numbers.

use std::collections::HashMap;
use subdao::account::AccountId;
use subdao::auth::Auth;
use subdao::page::cal_pages;
use subdao::token::TokenPort;
use subdao::vault::VaultManager;
use subdao::vote::{VoteManager, STATUS_FAILED_QUORUM, STATUS_FAILED_TRANSFER, STATUS_OPEN,
    STATUS_SUCCEEDED};

const ALICE: AccountId = 1;
const BOB: AccountId = 2;
const EVE: AccountId = 3;
const TOKEN: AccountId = 7;
const ORG_ADDR: AccountId = 100;
const VAULT_ADDR: AccountId = 200;
const AUTH_ADDR: AccountId = 300;

/// An in-memory fungible-token world: per-token balances by account.
struct FakeTokens {
    balances: HashMap<(AccountId, AccountId), u64>,
    vault: AccountId,
}

impl FakeTokens {
    fn new(vault: AccountId) -> Self {
        FakeTokens { balances: HashMap::new(), vault }
    }

    fn balance(&self, token: AccountId, account: AccountId) -> u64 {
        *self.balances.get(&(token, account)).unwrap_or(&0)
    }

    fn credit(&mut self, token: AccountId, account: AccountId, value: u64) {
        let b = self.balance(token, account);
        self.balances.insert((token, account), b + value);
    }
}

impl TokenPort for FakeTokens {
    fn symbol(&self, _token: AccountId) -> String {
        "TKN".to_string()
    }

    fn name(&self, _token: AccountId) -> String {
        "Token".to_string()
    }

    fn balance_of(&self, token: AccountId, account: AccountId) -> u64 {
        self.balance(token, account)
    }

    fn transfer(&mut self, token: AccountId, to: AccountId, value: u64) -> bool {
        let from = self.vault;
        if self.balance(token, from) < value {
            return false;
        }
        let b = self.balance(token, from);
        self.balances.insert((token, from), b - value);
        let t = self.balance(token, to);
        self.balances.insert((token, to), t + value);
        true
    }

    fn transfer_from(&mut self, token: AccountId, from: AccountId, to: AccountId, value: u64) -> bool {
        if self.balance(token, from) < value {
            return false;
        }
        let b = self.balance(token, from);
        self.balances.insert((token, from), b - value);
        let t = self.balance(token, to);
        self.balances.insert((token, to), t + value);
        true
    }
}

fn auth_for_vote() -> Auth {
    let mut auth = Auth::new(AUTH_ADDR);
    auth.register_action(AUTH_ADDR, "vote".to_string(), "new".to_string(), "new".to_string());
    auth.register_action(AUTH_ADDR, "vote".to_string(), "vote".to_string(), "vote".to_string());
    auth.grant_permission(AUTH_ADDR, ALICE, "vote".to_string(), "new".to_string());
    auth.grant_permission(AUTH_ADDR, ALICE, "vote".to_string(), "vote".to_string());
    auth.grant_permission(AUTH_ADDR, BOB, "vote".to_string(), "vote".to_string());
    auth
}

/// Pagination on concrete numbers: ten items in pages of three, page three
/// holds exactly the tenth item.
#[test]
fn pagination_window_exact() {
    let (start, end, pages) = cal_pages(3, 3, 10);
    assert_eq!(start, 9);
    assert_eq!(end, 10);
    assert_eq!(pages, 4);

    let mut vault = VaultManager::new(ORG_ADDR, AUTH_ADDR, VAULT_ADDR);
    for i in 0..10u64 {
        assert!(vault.deposit_native_token(ALICE, 10 + i as u128, i));
    }
    let page = vault.get_transfer_history(3, 3);
    assert_eq!(page.total, 10);
    assert_eq!(page.pages, 4);
    assert_eq!(page.data.len(), 1);
    // newest first: page three holds the oldest record
    assert_eq!(page.data[0].transfer_id, 1);
}

/// A second cast by the same voter is refused and moves nothing.
#[test]
fn voting_is_idempotent_per_voter() {
    let auth = auth_for_vote();
    let mut vm = VoteManager::new(VAULT_ADDR, AUTH_ADDR);
    vm.new_vote(&auth, ALICE, "t".to_string(), "d".to_string(), 100, 2, 1, "A|B|C".to_string(), 0);
    assert!(vm.vote(&auth, ALICE, 0, 1, ALICE));
    assert_eq!(vm.votes[0].support_num, 1);
    let tallies_before: Vec<u64> = vm.choices.iter().map(|c| c.yea).collect();

    assert!(!vm.vote(&auth, ALICE, 0, 2, ALICE));
    assert_eq!(vm.votes[0].support_num, 1);
    let tallies_after: Vec<u64> = vm.choices.iter().map(|c| c.yea).collect();
    assert_eq!(tallies_before, tallies_after);

    // a different voter still counts
    assert!(vm.vote(&auth, BOB, 0, 1, BOB));
    assert_eq!(vm.votes[0].support_num, 2);
}

/// A proposal below quorum at window close fails without touching the
/// treasury.
#[test]
fn quorum_gate_blocks_treasury() {
    let auth = auth_for_vote();
    let mut vault = VaultManager::new(ORG_ADDR, AUTH_ADDR, VAULT_ADDR);
    let mut tokens = FakeTokens::new(VAULT_ADDR);
    tokens.credit(TOKEN, VAULT_ADDR, 1000);
    vault.add_vault_token(TOKEN);
    let mut vm = VoteManager::new(VAULT_ADDR, AUTH_ADDR);
    vm.new_vote_with_transfer(
        &auth,
        ALICE,
        "pay".to_string(),
        "d".to_string(),
        100,
        1,
        2,
        "A|B".to_string(),
        TOKEN,
        EVE,
        50,
        0,
    );
    assert!(vm.vote(&auth, ALICE, 0, 0, ALICE));
    // one vote against a quorum of two
    assert!(!vm.execute(&mut vault, &mut tokens, 0, 500));
    assert_eq!(vm.votes[0].status, STATUS_FAILED_QUORUM);
    assert!(vm.votes[0].executed);
    assert_eq!(vault.transfer_history.len(), 0);
    assert_eq!(tokens.balance(TOKEN, VAULT_ADDR), 1000);
}

/// The full lifecycle: create with three choices, vote for the second, let
/// the window pass, execute to success.
#[test]
fn end_to_end_success() {
    let auth = auth_for_vote();
    let mut vault = VaultManager::new(ORG_ADDR, AUTH_ADDR, VAULT_ADDR);
    let mut tokens = FakeTokens::new(VAULT_ADDR);
    let mut vm = VoteManager::new(VAULT_ADDR, AUTH_ADDR);
    vm.new_vote(&auth, ALICE, "t".to_string(), "d".to_string(), 100, 1, 1, "A|B|C".to_string(), 0);
    assert!(vm.vote(&auth, ALICE, 0, 1, ALICE));

    // while the window is open, execute is a no-op reporting success
    assert!(vm.execute(&mut vault, &mut tokens, 0, 50));
    assert!(!vm.votes[0].executed);
    assert_eq!(vm.votes[0].status, STATUS_OPEN);

    assert!(vm.execute(&mut vault, &mut tokens, 0, 150));
    assert!(vm.votes[0].executed);
    assert_eq!(vm.votes[0].status, STATUS_SUCCEEDED);

    // a second execution is a no-op
    assert!(vm.execute(&mut vault, &mut tokens, 0, 200));
    assert_eq!(vm.votes[0].status, STATUS_SUCCEEDED);
}

/// The same lifecycle with a treasury trigger whose token transfer is
/// refused: the proposal is executed but marked failed, and no ledger entry
/// appears.
#[test]
fn trigger_failure_marks_failed_transfer() {
    let auth = auth_for_vote();
    let mut vault = VaultManager::new(ORG_ADDR, AUTH_ADDR, VAULT_ADDR);
    // the token is registered but the vault holds no funds of it
    vault.add_vault_token(TOKEN);
    let mut tokens = FakeTokens::new(VAULT_ADDR);
    let mut vm = VoteManager::new(VAULT_ADDR, AUTH_ADDR);
    vm.new_vote_with_transfer(
        &auth,
        ALICE,
        "pay".to_string(),
        "d".to_string(),
        100,
        1,
        1,
        "A|B|C".to_string(),
        TOKEN,
        EVE,
        50,
        0,
    );
    assert!(vm.vote(&auth, ALICE, 0, 1, ALICE));
    let r = vm.execute(&mut vault, &mut tokens, 0, 150);
    assert!(!r);
    assert!(vm.votes[0].executed);
    assert_eq!(vm.votes[0].status, STATUS_FAILED_TRANSFER);
    assert_eq!(vault.transfer_history.len(), 0);
}

/// A funded trigger pays out and the treasury records it.
#[test]
fn trigger_success_pays_out() {
    let auth = auth_for_vote();
    let mut vault = VaultManager::new(ORG_ADDR, AUTH_ADDR, VAULT_ADDR);
    vault.add_vault_token(TOKEN);
    let mut tokens = FakeTokens::new(VAULT_ADDR);
    tokens.credit(TOKEN, VAULT_ADDR, 1000);
    let mut vm = VoteManager::new(VAULT_ADDR, AUTH_ADDR);
    vm.new_vote_with_transfer(
        &auth,
        ALICE,
        "pay".to_string(),
        "d".to_string(),
        100,
        1,
        1,
        "A|B".to_string(),
        TOKEN,
        EVE,
        50,
        0,
    );
    assert!(vm.vote(&auth, ALICE, 0, 0, ALICE));
    assert!(vm.execute(&mut vault, &mut tokens, 0, 150));
    assert_eq!(vm.votes[0].status, STATUS_SUCCEEDED);
    assert_eq!(vault.transfer_history.len(), 1);
    assert_eq!(vault.transfer_history[0].to_address, EVE);
    assert_eq!(vault.transfer_history[0].value, 50);
    assert_eq!(tokens.balance(TOKEN, EVE), 50);
    assert_eq!(tokens.balance(TOKEN, VAULT_ADDR), 950);
}

/// Quorum met but no choice reaching the threshold: executed, status left
/// open, treasury untouched.
#[test]
fn no_winner_leaves_status_open() {
    let auth = auth_for_vote();
    let mut vault = VaultManager::new(ORG_ADDR, AUTH_ADDR, VAULT_ADDR);
    let mut tokens = FakeTokens::new(VAULT_ADDR);
    let mut vm = VoteManager::new(VAULT_ADDR, AUTH_ADDR);
    vm.new_vote(&auth, ALICE, "t".to_string(), "d".to_string(), 100, 5, 1, "A|B".to_string(), 0);
    assert!(vm.vote(&auth, ALICE, 0, 0, ALICE));
    assert!(vm.execute(&mut vault, &mut tokens, 0, 150));
    assert!(vm.votes[0].executed);
    assert_eq!(vm.votes[0].status, STATUS_OPEN);
    assert_eq!(vault.transfer_history.len(), 0);
}

/// The first choice meeting the threshold wins, in creation order.
#[test]
fn first_matching_choice_wins() {
    let auth = auth_for_vote();
    let mut vault = VaultManager::new(ORG_ADDR, AUTH_ADDR, VAULT_ADDR);
    let mut tokens = FakeTokens::new(VAULT_ADDR);
    let mut vm = VoteManager::new(VAULT_ADDR, AUTH_ADDR);
    vm.new_vote(&auth, ALICE, "t".to_string(), "d".to_string(), 100, 1, 1, "A|B".to_string(), 0);
    assert!(vm.vote(&auth, ALICE, 0, 1, ALICE));
    assert!(vm.vote(&auth, BOB, 0, 0, BOB));
    // both A and B hold one vote; A was created first and wins
    assert!(vm.execute(&mut vault, &mut tokens, 0, 150));
    assert_eq!(vm.votes[0].status, STATUS_SUCCEEDED);
    let d = vm.query_one_vote(&vault, &tokens, 0);
    assert_eq!(d.choices, "A:1|B:1");
    assert_eq!(d.support_num, 2);
}

/// Grant, revoke, query: the permission is gone afterwards, whatever was
/// held before.
#[test]
fn grant_then_revoke_clears_permission() {
    let mut auth = Auth::new(ALICE);
    auth.register_action(ALICE, "vault".to_string(), "withdraw".to_string(), "w".to_string());
    assert!(!auth.has_permission(BOB, "vault".to_string(), "withdraw".to_string()));
    assert!(auth.grant_permission(ALICE, BOB, "vault".to_string(), "withdraw".to_string()));
    assert!(auth.has_permission(BOB, "vault".to_string(), "withdraw".to_string()));
    assert!(auth.revoke_permission(ALICE, BOB, "vault".to_string(), "withdraw".to_string()));
    assert!(!auth.has_permission(BOB, "vault".to_string(), "withdraw".to_string()));
}
