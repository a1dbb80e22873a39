use subdao::account::AccountId;
use subdao::base::Base;

const ALICE: AccountId = 1;
const BOB: AccountId = 2;

#[test]
fn test_name() {
    let mut base = Base::default();
    base.set_name("SubDAO".to_string());
    assert_eq!(base.get_name(), "SubDAO");
}

#[test]
fn test_logo() {
    let mut base = Base::default();
    base.set_logo("https://example.com/logo.jpg".to_string());
    assert_eq!(base.get_logo(), "https://example.com/logo.jpg");
}

#[test]
fn test_desc() {
    let mut base = Base::default();
    base.set_desc("This is the one to rule all!".to_string());
    assert_eq!(base.get_desc(), "This is the one to rule all!");
}

#[test]
fn test_all() {
    let mut base = Base::default();
    base.init_base(
        ALICE,
        "SubDAO".to_string(),
        "http://example.com/logo.jpg".to_string(),
        "This is the one to rule all!".to_string(),
    );
    assert_eq!(base.get_name(), "SubDAO");
    assert_eq!(base.get_logo(), "http://example.com/logo.jpg");
    assert_eq!(base.get_desc(), "This is the one to rule all!");
    assert_eq!(base.get_creator(), ALICE);
}

#[test]
fn test_meanless() {
    let eth_name = String::from("eth");
    assert_eq!(eth_name.clone(), "eth");
}

#[test]
fn creator_is_not_rewritten_by_strangers() {
    let mut base = Base::new();
    base._set_creator(ALICE, ALICE);
    assert_eq!(base.get_creator(), ALICE);
    // a different caller cannot displace the creator
    base._set_creator(BOB, BOB);
    assert_eq!(base.get_creator(), ALICE);
    // the creator itself can hand the role over
    base._set_creator(ALICE, BOB);
    assert_eq!(base.get_creator(), BOB);
}

#[test]
fn get_base_snapshots_all_fields() {
    let mut base = Base::new();
    base.init_base(ALICE, "n".to_string(), "l".to_string(), "d".to_string());
    let d = base.get_base();
    assert_eq!(d.creator, ALICE);
    assert_eq!(d.name, "n");
    assert_eq!(d.logo, "l");
    assert_eq!(d.desc, "d");
}
