use index_fund::account::AccountId;
use index_fund::allocation::{
    all_distinct, copy_entries, names_distinct, pair_entries, AllocationEntry, AllocationLedger,
};
use index_fund::error::SagaError;

fn asset(name: &str) -> AccountId {
    AccountId::parse(name).unwrap()
}

fn entry(name: &str, weight: u128, route: u64) -> AllocationEntry {
    AllocationEntry { asset_id: asset(name), target_weight: weight, venue_route: route }
}

#[test]
fn pairing_needs_lists_of_one_length() {
    let paired = pair_entries(vec![asset("a.near"), asset("b.near")], vec![60, 40], vec![1, 2]).unwrap();
    assert_eq!(paired, vec![entry("a.near", 60, 1), entry("b.near", 40, 2)]);
    assert_eq!(pair_entries(vec![asset("a.near")], vec![60, 40], vec![1]), Err(SagaError::InvalidAllocation));
    assert_eq!(pair_entries(vec![asset("a.near")], vec![60], vec![]), Err(SagaError::InvalidAllocation));
    assert_eq!(pair_entries(vec![], vec![], vec![]), Ok(vec![]));
}

#[test]
fn duplicates_are_found() {
    assert!(all_distinct(&vec![entry("a.near", 1, 1), entry("b.near", 1, 1)]));
    assert!(!all_distinct(&vec![entry("a.near", 1, 1), entry("b.near", 2, 2), entry("a.near", 3, 3)]));
    assert!(all_distinct(&vec![]));
    assert!(names_distinct(&vec![asset("a.near"), asset("b.near")]));
    assert!(!names_distinct(&vec![asset("a.near"), asset("a.near")]));
}

#[test]
fn set_allocation_replaces_the_basket() {
    let admin = asset("index.near");
    let mut ledger = AllocationLedger::new();
    assert!(ledger.get_allocation().is_empty());
    ledger.set_allocation(&admin, &admin, vec![entry("a.near", 60, 1), entry("b.near", 40, 2)]).unwrap();
    assert_eq!(ledger.get_allocation(), vec![entry("a.near", 60, 1), entry("b.near", 40, 2)]);
    ledger.set_allocation(&admin, &admin, vec![entry("c.near", 0, 9)]).unwrap();
    assert_eq!(ledger.get_allocation(), vec![entry("c.near", 0, 9)]);
}

#[test]
fn set_allocation_refuses_duplicates_and_strangers() {
    let admin = asset("index.near");
    let stranger = asset("mallory.near");
    let mut ledger = AllocationLedger::with_entries(vec![entry("a.near", 60, 1)]).unwrap();
    assert_eq!(
        ledger.set_allocation(&admin, &admin, vec![entry("b.near", 1, 1), entry("b.near", 2, 2)]),
        Err(SagaError::InvalidAllocation)
    );
    assert_eq!(
        ledger.set_allocation(&stranger, &admin, vec![entry("b.near", 1, 1)]),
        Err(SagaError::InvalidAllocation)
    );
    assert_eq!(ledger.get_allocation(), vec![entry("a.near", 60, 1)]);
    assert!(AllocationLedger::with_entries(vec![entry("a.near", 1, 1), entry("a.near", 1, 1)]).is_err());
}

#[test]
fn route_for_finds_the_pool() {
    let ledger = AllocationLedger::with_entries(vec![entry("a.near", 60, 1), entry("b.near", 40, 2)]).unwrap();
    assert_eq!(ledger.route_for(&asset("a.near")), Ok(1));
    assert_eq!(ledger.route_for(&asset("b.near")), Ok(2));
    assert_eq!(ledger.route_for(&asset("c.near")), Err(SagaError::UnknownAsset));
    assert_eq!(AllocationLedger::new().route_for(&asset("a.near")), Err(SagaError::UnknownAsset));
}

#[test]
fn snapshots_are_copies() {
    let admin = asset("index.near");
    let mut ledger = AllocationLedger::with_entries(vec![entry("a.near", 60, 1)]).unwrap();
    let snapshot = ledger.get_allocation();
    ledger.set_allocation(&admin, &admin, vec![entry("b.near", 40, 2)]).unwrap();
    assert_eq!(snapshot, vec![entry("a.near", 60, 1)]);
    assert_eq!(copy_entries(&snapshot), snapshot);
}

#[test]
fn reroute_changes_pools_only() {
    let mut ledger = AllocationLedger::with_entries(vec![
        entry("a.near", 60, 1),
        entry("b.near", 40, 2),
        entry("c.near", 5, 3),
    ])
    .unwrap();
    ledger.reroute(&vec![asset("c.near"), asset("a.near")], &vec![30, 10]).unwrap();
    assert_eq!(
        ledger.get_allocation(),
        vec![entry("a.near", 60, 10), entry("b.near", 40, 2), entry("c.near", 5, 30)]
    );
}

#[test]
fn reroute_is_all_or_nothing() {
    let before = vec![entry("a.near", 60, 1), entry("b.near", 40, 2)];
    let mut ledger = AllocationLedger::with_entries(copy_entries(&before)).unwrap();
    assert_eq!(
        ledger.reroute(&vec![asset("a.near"), asset("z.near")], &vec![7, 8]),
        Err(SagaError::UnknownAsset)
    );
    assert_eq!(ledger.reroute(&vec![asset("a.near")], &vec![7, 8]), Err(SagaError::InvalidAllocation));
    assert_eq!(
        ledger.reroute(&vec![asset("a.near"), asset("a.near")], &vec![7, 8]),
        Err(SagaError::InvalidAllocation)
    );
    assert_eq!(ledger.get_allocation(), before);
}
