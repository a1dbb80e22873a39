use subdao::account::AccountId;
use subdao::auth::Auth;

const ALICE: AccountId = 1;
const BOB: AccountId = 2;

#[test]
fn test_register_action() {
    let mut auth = Auth::new(ALICE);
    let r = auth.register_action(
        ALICE,
        "hello".to_string(),
        "world".to_string(),
        "access".to_string(),
    );
    assert!(r);
}

#[test]
fn test_grant_permission() {
    let mut auth = Auth::new(ALICE);
    auth.register_action(
        ALICE,
        "hello".to_string(),
        "world".to_string(),
        "access".to_string(),
    );
    let r = auth.grant_permission(ALICE, BOB, "hello".to_string(), "world".to_string());
    assert!(r);
}

#[test]
fn test_grant_permission2() {
    let mut auth = Auth::new(ALICE);
    auth.register_action(ALICE, "auth".to_string(), "grant".to_string(), "grant".to_string());
    auth.register_action(
        ALICE,
        "hello".to_string(),
        "world".to_string(),
        "access".to_string(),
    );
    auth.grant_permission(ALICE, ALICE, "auth".to_string(), "grant".to_string());
    auth.transfer_owner(ALICE, BOB);
    // alice is no longer the owner but holds the (auth, grant) capability
    let r = auth.grant_permission(ALICE, BOB, "hello".to_string(), "world".to_string());
    assert!(r);
}

#[test]
fn test_has_permission() {
    let mut auth = Auth::new(ALICE);
    auth.register_action(
        ALICE,
        "hello".to_string(),
        "world".to_string(),
        "access".to_string(),
    );
    auth.grant_permission(ALICE, BOB, "hello".to_string(), "world".to_string());
    let r1 = auth.has_permission(ALICE, "hello".to_string(), "world".to_string());
    assert!(!r1);
    let r2 = auth.has_permission(BOB, "hello".to_string(), "world".to_string());
    assert!(r2);
}

#[test]
fn test_revoke_permission() {
    let mut auth = Auth::new(ALICE);
    auth.register_action(
        ALICE,
        "hello".to_string(),
        "world".to_string(),
        "access".to_string(),
    );
    auth.grant_permission(ALICE, BOB, "hello".to_string(), "world".to_string());
    let r1 = auth.has_permission(BOB, "hello".to_string(), "world".to_string());
    assert!(r1);
    auth.revoke_permission(ALICE, BOB, "hello".to_string(), "world".to_string());
    let r2 = auth.has_permission(BOB, "hello".to_string(), "world".to_string());
    assert!(!r2);
}

#[test]
fn test_show_actions_by_contract() {
    let mut auth = Auth::new(ALICE);
    auth.register_action(
        ALICE,
        "hello".to_string(),
        "world".to_string(),
        "access".to_string(),
    );
    let result = auth.show_actions_by_contract("hello".to_string(), 0, 10);
    assert!(result.success);
    assert_eq!(result.total, 1);
    assert_eq!(result.data.len(), 1);
    assert_eq!(result.data[0].action_title, "access");
    assert_eq!(result.data[0].contract_name, "hello");
    assert_eq!(result.data[0].function_name, "world");
}

#[test]
fn show_actions_by_user_lists_grants() {
    let mut auth = Auth::new(ALICE);
    auth.register_action(ALICE, "vote".to_string(), "new".to_string(), "n".to_string());
    auth.register_action(ALICE, "vote".to_string(), "vote".to_string(), "v".to_string());
    auth.grant_permission(ALICE, BOB, "vote".to_string(), "new".to_string());
    auth.grant_permission(ALICE, BOB, "vote".to_string(), "vote".to_string());
    let result = auth.show_actions_by_user(BOB, 0, 10);
    assert_eq!(result.total, 2);
    assert_eq!(result.data[0].function_name, "new");
    assert_eq!(result.data[1].function_name, "vote");
}

#[test]
fn cancel_action_unregisters_name() {
    let mut auth = Auth::new(ALICE);
    auth.register_action(ALICE, "a".to_string(), "b".to_string(), "t".to_string());
    auth.grant_permission(ALICE, BOB, "a".to_string(), "b".to_string());
    assert!(auth.has_permission(BOB, "a".to_string(), "b".to_string()));
    assert!(auth.cancel_action(ALICE, "a".to_string(), "b".to_string()));
    // the grant pair survives, but the name no longer resolves
    assert!(!auth.has_permission(BOB, "a".to_string(), "b".to_string()));
}

#[test]
fn grant_fails_on_unregistered_action() {
    let mut auth = Auth::new(ALICE);
    let r = auth.grant_permission(ALICE, BOB, "no".to_string(), "where".to_string());
    assert!(!r);
    assert!(!auth.has_permission(BOB, "no".to_string(), "where".to_string()));
}

#[test]
fn get_auth_owner_follows_transfer() {
    let mut auth = Auth::new(ALICE);
    assert_eq!(auth.get_auth_owner(), ALICE);
    auth.transfer_owner(ALICE, BOB);
    assert_eq!(auth.get_auth_owner(), BOB);
}
