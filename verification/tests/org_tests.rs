use subdao::account::AccountId;
use subdao::auth::Auth;
use subdao::org::OrgManager;

const ALICE: AccountId = 1;
const BOB: AccountId = 2;
const EVE: AccountId = 3;
const ORG_ADDR: AccountId = 100;

/// An auth registry that lets the org component grant: the org's own address
/// owns it, and the vote actions are registered.
fn auth_for_org() -> Auth {
    let mut auth = Auth::new(ORG_ADDR);
    auth.register_action(ORG_ADDR, "vote".to_string(), "new".to_string(), "new".to_string());
    auth.register_action(ORG_ADDR, "vote".to_string(), "vote".to_string(), "vote".to_string());
    auth
}

#[test]
fn new_org_works() {
    let org_manager = OrgManager::new(ALICE, 1, ORG_ADDR);
    assert_eq!(org_manager.owner, ALICE);
    assert_eq!(org_manager.org_id, 1);
}

#[test]
fn add_member_works() {
    let mut auth = auth_for_org();
    let mut org_manager = OrgManager::new(ALICE, 1, ORG_ADDR);
    let bob_name = String::from("bob");
    org_manager.add_dao_member(&mut auth, ALICE, bob_name, BOB);
    let member = org_manager.members.entries[0].0;
    assert_eq!(member, BOB);
}

#[test]
fn add_moderator_works() {
    let mut auth = auth_for_org();
    let mut org_manager = OrgManager::new(ALICE, 1, ORG_ADDR);
    let bob_name = String::from("bob");
    org_manager.add_dao_moderator(&mut auth, ALICE, bob_name, BOB);
    let member = org_manager.moderators.entries[0].0;
    assert_eq!(member, BOB);
}

#[test]
fn remove_moderator_works() {
    let mut auth = auth_for_org();
    let mut org_manager = OrgManager::new(ALICE, 1, ORG_ADDR);
    let bob_name = String::from("bob");
    org_manager.add_dao_moderator(&mut auth, ALICE, bob_name, BOB);
    org_manager.remove_dao_moderator(ALICE, BOB);
    assert_eq!(org_manager.moderators.entries.len(), 0);
}

#[test]
fn remove_members_works() {
    let mut auth = auth_for_org();
    let mut org_manager = OrgManager::new(ALICE, 1, ORG_ADDR);
    let bob_name = String::from("bob");
    org_manager.add_dao_member(&mut auth, ALICE, bob_name, BOB);
    org_manager.remove_dao_member(BOB);
    assert_eq!(org_manager.members.entries.len(), 0);
}

#[test]
fn resign_works() {
    let mut auth = auth_for_org();
    let mut org_manager = OrgManager::new(ALICE, 1, ORG_ADDR);
    org_manager.add_dao_member(&mut auth, ALICE, String::from("bob"), BOB);
    org_manager.add_dao_member(&mut auth, ALICE, String::from("eve"), EVE);
    assert_eq!(org_manager.members.entries.len(), 2);
    org_manager.resign_member(BOB);
    assert_eq!(org_manager.members.entries.len(), 1);
    org_manager.resign_member(EVE);
    assert_eq!(org_manager.members.entries.len(), 0);
}

#[test]
fn moderator_add_grants_vote_permissions() {
    let mut auth = auth_for_org();
    let mut org = OrgManager::new(ALICE, 1, ORG_ADDR);
    assert!(org.add_dao_moderator(&mut auth, ALICE, "bob".to_string(), BOB));
    assert!(auth.has_permission(BOB, "vote".to_string(), "new".to_string()));
    assert!(auth.has_permission(BOB, "vote".to_string(), "vote".to_string()));
    // a second insert of the same moderator reports failure
    assert!(!org.add_dao_moderator(&mut auth, ALICE, "bob2".to_string(), BOB));
}

#[test]
fn who_am_i_reports_roles() {
    let mut auth = auth_for_org();
    let mut org = OrgManager::new(ALICE, 1, ORG_ADDR);
    org.add_dao_moderator(&mut auth, ALICE, "bob".to_string(), BOB);
    org.add_dao_member(&mut auth, ALICE, "eve".to_string(), EVE);
    assert_eq!(org.who_am_i(BOB), (false, true, false));
    assert_eq!(org.who_am_i(EVE), (true, false, false));
    assert_eq!(org.who_am_i(ALICE), (false, false, true));
    assert_eq!(org.check_role_by_account(EVE), (true, false, false));
}

#[test]
fn transfer_ownership_promotes_member() {
    let mut auth = auth_for_org();
    let mut org = OrgManager::new(ALICE, 1, ORG_ADDR);
    org.add_dao_member(&mut auth, ALICE, "bob".to_string(), BOB);
    assert!(org.transfer_ownership(&mut auth, ALICE, BOB));
    let (is_member, is_moderator, is_owner) = org.who_am_i(BOB);
    assert!(!is_member);
    assert!(is_moderator);
    assert!(is_owner);
    assert_eq!(org.get_dao_owner(), BOB);
}

#[test]
fn transfer_ownership_rejects_stranger() {
    let mut auth = auth_for_org();
    let mut org = OrgManager::new(ALICE, 1, ORG_ADDR);
    assert!(!org.transfer_ownership(&mut auth, ALICE, EVE));
    assert_eq!(org.get_dao_owner(), ALICE);
}

#[test]
fn apply_and_approve_member() {
    let mut auth = auth_for_org();
    let mut org = OrgManager::new(ALICE, 1, ORG_ADDR);
    assert!(org.apply_member("eve".to_string(), EVE));
    // a repeated application reports failure
    assert!(!org.apply_member("eve again".to_string(), EVE));
    // a stranger cannot approve
    assert!(!org.approve_member(&mut auth, BOB, "eve".to_string(), EVE));
    // the owner can
    assert!(org.approve_member(&mut auth, ALICE, "eve".to_string(), EVE));
    assert_eq!(org.who_am_i(EVE), (true, false, false));
    assert_eq!(org.applying_members.entries.len(), 0);
    assert!(auth.has_permission(EVE, "vote".to_string(), "vote".to_string()));
}

#[test]
fn free_join_flag_opens_member_add() {
    let mut auth = auth_for_org();
    let mut org = OrgManager::new(ALICE, 1, ORG_ADDR);
    // bob holds no role, so the add is refused
    assert!(!org.add_dao_member(&mut auth, BOB, "eve".to_string(), EVE));
    assert!(org.set_can_free_add_member(true));
    assert!(org.add_dao_member(&mut auth, BOB, "eve".to_string(), EVE));
}

#[test]
fn batch_add_members_works() {
    let mut auth = auth_for_org();
    let mut org = OrgManager::new(ALICE, 1, ORG_ADDR);
    let list = vec![
        ("bob".to_string(), BOB),
        ("eve".to_string(), EVE),
    ];
    assert!(org.batch_add_dao_member(&mut auth, ALICE, list));
    assert_eq!(org.members.entries.len(), 2);
    assert!(auth.has_permission(BOB, "vote".to_string(), "vote".to_string()));
    assert!(auth.has_permission(EVE, "vote".to_string(), "vote".to_string()));
}

#[test]
fn dao_size_counts_distinct_accounts() {
    let mut auth = auth_for_org();
    let mut org = OrgManager::new(ALICE, 1, ORG_ADDR);
    org.add_dao_moderator(&mut auth, ALICE, "bob".to_string(), BOB);
    org.add_dao_member(&mut auth, ALICE, "bob".to_string(), BOB);
    org.add_dao_member(&mut auth, ALICE, "eve".to_string(), EVE);
    // bob holds both roles but counts once
    assert_eq!(org.get_dao_size(), 2);
}

#[test]
fn member_lists_paginate() {
    let mut auth = auth_for_org();
    let mut org = OrgManager::new(ALICE, 1, ORG_ADDR);
    org.add_dao_member(&mut auth, ALICE, "bob".to_string(), BOB);
    org.add_dao_member(&mut auth, ALICE, "eve".to_string(), EVE);
    let page = org.get_dao_members_list(0, 1);
    assert_eq!(page.total, 2);
    assert_eq!(page.pages, 2);
    assert_eq!(page.data, vec![BOB]);
    let detail = org.get_dao_member_detail_list(1, 1);
    assert_eq!(detail.data, vec![(EVE, "eve".to_string())]);
}
