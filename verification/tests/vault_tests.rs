use std::collections::HashMap;
use subdao::account::{AccountId, NATIVE_TOKEN};
use subdao::token::TokenPort;
use subdao::vault::VaultManager;

const ALICE: AccountId = 1;
const BOB: AccountId = 2;
const EVE: AccountId = 3;
const ORG_ADDR: AccountId = 100;
const VAULT_ADDR: AccountId = 200;
const AUTH_ADDR: AccountId = 300;

/// An in-memory fungible-token world: per-token balances by account.
struct FakeTokens {
    balances: HashMap<(AccountId, AccountId), u64>,
    vault: AccountId,
}

impl FakeTokens {
    fn new(vault: AccountId) -> Self {
        FakeTokens { balances: HashMap::new(), vault }
    }

    fn balance(&self, token: AccountId, account: AccountId) -> u64 {
        *self.balances.get(&(token, account)).unwrap_or(&0)
    }

    fn credit(&mut self, token: AccountId, account: AccountId, value: u64) {
        let b = self.balance(token, account);
        self.balances.insert((token, account), b + value);
    }
}

impl TokenPort for FakeTokens {
    fn symbol(&self, _token: AccountId) -> String {
        "TKN".to_string()
    }

    fn name(&self, _token: AccountId) -> String {
        "Token".to_string()
    }

    fn balance_of(&self, token: AccountId, account: AccountId) -> u64 {
        self.balance(token, account)
    }

    fn transfer(&mut self, token: AccountId, to: AccountId, value: u64) -> bool {
        let from = self.vault;
        if self.balance(token, from) < value {
            return false;
        }
        let b = self.balance(token, from);
        self.balances.insert((token, from), b - value);
        self.credit(token, to, value);
        true
    }

    fn transfer_from(&mut self, token: AccountId, from: AccountId, to: AccountId, value: u64) -> bool {
        if self.balance(token, from) < value {
            return false;
        }
        let b = self.balance(token, from);
        self.balances.insert((token, from), b - value);
        self.credit(token, to, value);
        true
    }
}

fn new_vault() -> VaultManager {
    VaultManager::new(ORG_ADDR, AUTH_ADDR, VAULT_ADDR)
}

#[test]
fn add_token_works() {
    let mut vault_manager = new_vault();
    vault_manager.add_vault_token(BOB);
    assert_eq!(vault_manager.tokens.entries.len(), 1);
}

#[test]
fn remove_token_works() {
    let mut vault_manager = new_vault();
    vault_manager.add_vault_token(BOB);
    vault_manager.remove_vault_token(BOB);
    assert_eq!(vault_manager.tokens.entries.len(), 1);
    assert_eq!(vault_manager.visible_tokens.entries.len(), 0);
}

#[test]
fn get_token_list_works() {
    let mut vault_manager = new_vault();
    vault_manager.add_vault_token(BOB);
    vault_manager.add_vault_token(ALICE);
    let page = vault_manager.get_token_list(0, 10);
    // the two registered tokens, and the native sentinel as the last entry
    assert_eq!(page.total, 3);
    assert_eq!(page.data, vec![BOB, ALICE, NATIVE_TOKEN]);
}

#[test]
fn get_balance_of_works() {
    let mut tokens = FakeTokens::new(VAULT_ADDR);
    let mut vault_manager = new_vault();
    vault_manager.add_vault_token(BOB);
    assert_eq!(vault_manager.get_balance_of(&tokens, BOB), 0);
    tokens.credit(BOB, VAULT_ADDR, 7);
    assert_eq!(vault_manager.get_balance_of(&tokens, BOB), 7);
    // untracked tokens read as zero whatever the token itself says
    tokens.credit(EVE, VAULT_ADDR, 9);
    assert_eq!(vault_manager.get_balance_of(&tokens, EVE), 0);
}

#[test]
fn deposit_works() {
    let mut tokens = FakeTokens::new(VAULT_ADDR);
    tokens.credit(BOB, ALICE, 100);
    let mut vault_manager = new_vault();
    vault_manager.add_vault_token(BOB);
    assert!(vault_manager.deposit(&mut tokens, ALICE, BOB, ALICE, 100, 0, 11));
    assert_eq!(vault_manager.get_balance_of(&tokens, BOB), 100);
}

#[test]
fn withdraw_works() {
    let mut tokens = FakeTokens::new(VAULT_ADDR);
    tokens.credit(BOB, EVE, 1000);
    let mut vault_manager = new_vault();
    vault_manager.add_vault_token(BOB);
    vault_manager.deposit(&mut tokens, EVE, BOB, EVE, 1000, 0, 11);
    vault_manager.withdraw(&mut tokens, BOB, ALICE, 100, 12);
    assert_eq!(vault_manager.get_balance_of(&tokens, BOB), 900);
}

#[test]
fn transfer_history_works() {
    let mut tokens = FakeTokens::new(VAULT_ADDR);
    tokens.credit(BOB, EVE, 1000);
    let mut vault_manager = new_vault();
    vault_manager.add_vault_token(BOB);
    vault_manager.deposit(&mut tokens, EVE, BOB, EVE, 1000, 0, 11);
    vault_manager.withdraw(&mut tokens, BOB, ALICE, 100, 12);
    let page = vault_manager.get_transfer_history(0, 10);
    assert_eq!(page.total, 2);
    // newest first
    assert_eq!(page.data[0].transfer_id, 2);
    assert_eq!(page.data[0].transfer_direction, 1);
    assert_eq!(page.data[0].to_address, ALICE);
    assert_eq!(page.data[1].transfer_id, 1);
    assert_eq!(page.data[1].transfer_direction, 2);
    assert_eq!(page.data[1].from_address, EVE);
}

#[test]
fn ledger_grows_only_on_success() {
    let mut tokens = FakeTokens::new(VAULT_ADDR);
    let mut vault = new_vault();
    vault.add_vault_token(BOB);
    // the token has no funds: deposit is refused, nothing recorded
    assert!(!vault.deposit(&mut tokens, ALICE, BOB, ALICE, 50, 0, 1));
    assert_eq!(vault.transfer_history.len(), 0);
    // untracked token: refused
    assert!(!vault.deposit(&mut tokens, ALICE, EVE, ALICE, 50, 0, 2));
    assert_eq!(vault.transfer_history.len(), 0);
    // a funded deposit appends exactly one record
    tokens.credit(BOB, ALICE, 50);
    assert!(vault.deposit(&mut tokens, ALICE, BOB, ALICE, 50, 0, 3));
    assert_eq!(vault.transfer_history.len(), 1);
    // a refused withdrawal appends nothing
    assert!(!vault.withdraw(&mut tokens, BOB, EVE, 51, 4));
    assert_eq!(vault.transfer_history.len(), 1);
    // identifiers strictly increase
    assert!(vault.withdraw(&mut tokens, BOB, EVE, 20, 5));
    assert!(vault.transfer_history[0].transfer_id < vault.transfer_history[1].transfer_id);
}

#[test]
fn native_deposit_and_withdraw() {
    let mut vault = new_vault();
    assert!(vault.deposit_native_token(ALICE, 500, 1));
    assert_eq!(vault.native_balance, 500);
    assert_eq!(vault.get_transfer_history(0, 10).data[0].token_name, "SubDAO");
    assert!(vault.withdraw_native_token(BOB, 200, 2));
    assert_eq!(vault.native_balance, 300);
    assert_eq!(vault.transfer_history.len(), 2);
}

#[test]
fn visible_tokens_stay_subset_of_tokens() {
    let mut vault = new_vault();
    vault.add_vault_token(BOB);
    vault.add_vault_token(EVE);
    vault.remove_vault_token(BOB);
    // removal hides but never shrinks the permanent registration
    assert_eq!(vault.tokens.entries.len(), 2);
    assert_eq!(vault.visible_tokens.entries.len(), 1);
    for entry in vault.visible_tokens.entries.iter() {
        assert!(vault.tokens.entries.iter().any(|t| t.0 == entry.0));
    }
}

#[test]
fn get_balance_lists_native_last() {
    let mut tokens = FakeTokens::new(VAULT_ADDR);
    let mut vault = new_vault();
    vault.add_vault_token(BOB);
    tokens.credit(BOB, VAULT_ADDR, 42);
    vault.deposit_native_token(ALICE, 7, 1);
    let page = vault.get_balance(&tokens, 0, 10);
    assert_eq!(page.total, 2);
    assert_eq!(page.data[0].erc20, BOB);
    assert_eq!(page.data[0].balance, 42);
    assert_eq!(page.data[1].erc20, NATIVE_TOKEN);
    assert_eq!(page.data[1].symbol, "GOV");
    assert_eq!(page.data[1].name, "SubDAO");
    assert_eq!(page.data[1].balance, 7);
}
