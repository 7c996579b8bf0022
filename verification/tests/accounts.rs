use index_fund::account::{venue_account, AccountId};

#[test]
fn parse_takes_well_formed_names() {
    for name in ["alice.near", "near.testnet", "ref-finance-101.testnet", "a_b", "ab", "0x"] {
        let id = AccountId::parse(name).unwrap();
        assert_eq!(id.as_str(), name);
    }
}

#[test]
fn parse_refuses_malformed_names() {
    for name in ["", "a", "Alice.near", "alice..near", ".alice", "alice.", "al ice", "a-_b", "ali\u{e9}"] {
        assert!(AccountId::parse(name).is_none(), "{}", name);
    }
}

#[test]
fn parse_minds_the_length() {
    let longest = "a".repeat(64);
    let too_long = "a".repeat(65);
    assert!(AccountId::parse(&longest).is_some());
    assert!(AccountId::parse(&too_long).is_none());
}

#[test]
fn same_as_compares_the_text() {
    let a = AccountId::parse("alice.near").unwrap();
    let b = AccountId::parse("alice.near").unwrap();
    let c = AccountId::parse("bob.near").unwrap();
    assert!(a.same_as(&b));
    assert!(!a.same_as(&c));
    assert!(a.clone().same_as(&a));
    assert_eq!(a, b);
    assert_ne!(a, c);
}

#[test]
fn venue_is_the_exchange() {
    assert_eq!(venue_account().as_str(), "ref-finance-101.testnet");
}
