use std::collections::HashMap;
use subdao::account::AccountId;
use subdao::auth::Auth;
use subdao::text::split_str;
use subdao::token::TokenPort;
use subdao::vault::VaultManager;
use subdao::vote::VoteManager;

const ALICE: AccountId = 1;
const ORG_ADDR: AccountId = 100;
const VAULT_ADDR: AccountId = 200;
const AUTH_ADDR: AccountId = 300;

/// An in-memory fungible-token world: per-token balances by account.
struct FakeTokens {
    balances: HashMap<(AccountId, AccountId), u64>,
    vault: AccountId,
}

impl FakeTokens {
    fn new(vault: AccountId) -> Self {
        FakeTokens { balances: HashMap::new(), vault }
    }

    fn balance(&self, token: AccountId, account: AccountId) -> u64 {
        *self.balances.get(&(token, account)).unwrap_or(&0)
    }
}

impl TokenPort for FakeTokens {
    fn symbol(&self, _token: AccountId) -> String {
        "TKN".to_string()
    }

    fn name(&self, _token: AccountId) -> String {
        "Token".to_string()
    }

    fn balance_of(&self, token: AccountId, account: AccountId) -> u64 {
        self.balance(token, account)
    }

    fn transfer(&mut self, token: AccountId, to: AccountId, value: u64) -> bool {
        let from = self.vault;
        if self.balance(token, from) < value {
            return false;
        }
        let b = self.balance(token, from);
        self.balances.insert((token, from), b - value);
        let t = self.balance(token, to);
        self.balances.insert((token, to), t + value);
        true
    }

    fn transfer_from(&mut self, token: AccountId, from: AccountId, to: AccountId, value: u64) -> bool {
        if self.balance(token, from) < value {
            return false;
        }
        let b = self.balance(token, from);
        self.balances.insert((token, from), b - value);
        let t = self.balance(token, to);
        self.balances.insert((token, to), t + value);
        true
    }
}

/// An auth registry where `ALICE` may create proposals and vote.
fn auth_for_vote() -> Auth {
    let mut auth = Auth::new(AUTH_ADDR);
    auth.register_action(AUTH_ADDR, "vote".to_string(), "new".to_string(), "new".to_string());
    auth.register_action(AUTH_ADDR, "vote".to_string(), "vote".to_string(), "vote".to_string());
    auth.grant_permission(AUTH_ADDR, ALICE, "vote".to_string(), "new".to_string());
    auth.grant_permission(AUTH_ADDR, ALICE, "vote".to_string(), "vote".to_string());
    auth
}

#[test]
fn test_split() {
    let choices = "A,B,C".to_string();
    let split = split_str(choices.as_str(), ',');
    assert_eq!(split, vec!["A".to_string(), "B".to_string(), "C".to_string()]);
}

#[test]
fn test_split_with_vec() {
    let choices = "A,B,C".to_string();
    let vec = split_str(choices.as_str(), ',');
    let i: u32 = 1;
    let length = i + vec.len() as u32;
    assert!(length == 4);
}

#[test]
fn test_calculate() {
    let choice: u64 = 3;
    let support: u64 = 5;
    let t: u64 = choice * 1000 / support;
    assert_eq!(t, 600);
}

#[test]
fn new_vote_manager() {
    let vote_manager = VoteManager::new(VAULT_ADDR, AUTH_ADDR);
    assert_eq!(vote_manager.votes_length, 0);
}

#[test]
fn full_test() {
    let auth = auth_for_vote();
    let vault = VaultManager::new(ORG_ADDR, AUTH_ADDR, VAULT_ADDR);
    let tokens = FakeTokens::new(VAULT_ADDR);
    let mut vote_manager = VoteManager::new(VAULT_ADDR, AUTH_ADDR);

    let r = vote_manager.new_vote(
        &auth,
        ALICE,
        "hello".to_string(),
        "hello world".to_string(),
        100,
        1,
        0,
        "A|B|C".to_string(),
        0,
    );
    assert_eq!(r, 0);

    let vec1 = vote_manager.query_all_vote(&vault, &tokens, 0, 10);
    assert_eq!(vec1.data[0].choices, "A:0|B:0|C:0");

    assert!(vote_manager.vote(&auth, ALICE, 0, 2, ALICE));
    let vec2 = vote_manager.query_all_vote(&vault, &tokens, 0, 10);
    assert_eq!(vec2.data[0].choices, "A:0|B:0|C:1");

    // the same voter cannot vote again, and nothing moves
    assert!(!vote_manager.vote(&auth, ALICE, 0, 1, ALICE));
    let vec3 = vote_manager.query_all_vote(&vault, &tokens, 0, 10);
    assert_eq!(vec3.data[0].choices, "A:0|B:0|C:1");
    assert_eq!(vec3.data[0].support_num, 1);
}

#[test]
fn vote_has_voted_test() {
    let auth = auth_for_vote();
    let mut vote_manager = VoteManager::new(VAULT_ADDR, AUTH_ADDR);
    let r = vote_manager.new_vote(
        &auth,
        ALICE,
        "hello".to_string(),
        "hello world".to_string(),
        100,
        1,
        0,
        "A|B|C".to_string(),
        0,
    );
    assert_eq!(r, 0);

    let has_voted = vote_manager.query_voter_vote_one(0, ALICE);
    assert_eq!(has_voted, false);

    vote_manager.vote(&auth, ALICE, 0, 2, ALICE);

    let has_voted = vote_manager.query_voter_vote_one(0, ALICE);
    assert_eq!(has_voted, true);
}

#[test]
fn vote_rejects_out_of_range_choice() {
    let auth = auth_for_vote();
    let mut vm = VoteManager::new(VAULT_ADDR, AUTH_ADDR);
    vm.new_vote(
        &auth,
        ALICE,
        "t".to_string(),
        "d".to_string(),
        100,
        1,
        1,
        "A|B|C".to_string(),
        0,
    );
    // the slice holds three choices: index 3 is out of range
    assert!(!vm.vote(&auth, ALICE, 0, 3, ALICE));
    assert!(vm.vote(&auth, ALICE, 0, 2, ALICE));
}

#[test]
fn vote_rejects_missing_proposal_and_missing_permission() {
    let auth = auth_for_vote();
    let mut vm = VoteManager::new(VAULT_ADDR, AUTH_ADDR);
    assert!(!vm.vote(&auth, ALICE, 0, 0, ALICE));
    vm.new_vote(
        &auth,
        ALICE,
        "t".to_string(),
        "d".to_string(),
        100,
        1,
        1,
        "A|B".to_string(),
        0,
    );
    // account 42 holds no (vote, vote) capability
    assert!(!vm.vote(&auth, 42, 0, 0, 42));
}

#[test]
fn queries_classify_by_window_and_outcome() {
    let auth = auth_for_vote();
    let mut vault = VaultManager::new(ORG_ADDR, AUTH_ADDR, VAULT_ADDR);
    let mut tokens = FakeTokens::new(VAULT_ADDR);
    let mut vm = VoteManager::new(VAULT_ADDR, AUTH_ADDR);
    // proposal 0: window [0, 100); proposal 1: window [0, 1000)
    vm.new_vote(&auth, ALICE, "p0".to_string(), "d".to_string(), 100, 1, 1, "A|B".to_string(), 0);
    vm.new_vote(&auth, ALICE, "p1".to_string(), "d".to_string(), 1000, 1, 1, "A|B".to_string(), 0);
    vm.vote(&auth, ALICE, 0, 0, ALICE);

    // at 500, proposal 0 is past its window and unexecuted: pending
    let active = vm.query_active_vote(&vault, &tokens, 500, 0, 10);
    assert_eq!(active.total, 1);
    assert_eq!(active.data[0].vote_id, 1);
    let pending = vm.query_pending_vote(&vault, &tokens, 500, 0, 10);
    assert_eq!(pending.total, 1);
    assert_eq!(pending.data[0].vote_id, 0);
    assert_eq!(vm.query_history_vote(&vault, &tokens, 500, 0, 10).total, 0);

    // executing proposal 0 moves it to the history
    assert!(vm.execute(&mut vault, &mut tokens, 0, 500));
    let history = vm.query_history_vote(&vault, &tokens, 500, 0, 10);
    assert_eq!(history.total, 1);
    assert_eq!(history.data[0].vote_id, 0);
    assert_eq!(vm.query_pending_vote(&vault, &tokens, 500, 0, 10).total, 0);
}

#[test]
fn query_one_vote_shows_trigger_token() {
    let auth = auth_for_vote();
    let vault = VaultManager::new(ORG_ADDR, AUTH_ADDR, VAULT_ADDR);
    let tokens = FakeTokens::new(VAULT_ADDR);
    let mut vm = VoteManager::new(VAULT_ADDR, AUTH_ADDR);
    vm.new_vote_with_transfer(
        &auth,
        ALICE,
        "pay".to_string(),
        "d".to_string(),
        100,
        1,
        1,
        "yes|no".to_string(),
        7,
        ALICE,
        25,
        0,
    );
    let d = vm.query_one_vote(&vault, &tokens, 0);
    assert!(d.need_trigger);
    assert_eq!(d.erc20_address, 7);
    assert_eq!(d.erc20_symbol, "TKN");
    assert_eq!(d.erc20_name, "Token");
    assert_eq!(d.to_address, ALICE);
    assert_eq!(d.transfer_value, 25);
    assert_eq!(d.choices, "yes:0|no:0");
}
