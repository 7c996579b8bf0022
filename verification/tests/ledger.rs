use index_fund::account::AccountId;
use index_fund::allocation::AllocationEntry;
use index_fund::contract::{CallContext, Contract};
use index_fund::error::SagaError;
use index_fund::fees::FeeSchedule;
use index_fund::shares::{holding, share_quantity, ShareBalances};
use index_fund::wide::{scale_down_product, scale_up_over};
use index_fund::storage::{settle_storage, StorageCharge};

const TOTAL_SUPPLY: u128 = 1_000_000_000_000_000;

fn account(name: &str) -> AccountId {
    AccountId::parse(name).unwrap()
}

fn context(current: &str, caller: &str) -> CallContext {
    CallContext {
        current_account_id: account(current),
        signer_account_id: account(caller),
        predecessor_account_id: account(caller),
    }
}

fn default_contract() -> Contract {
    Contract::new_default_meta(
        vec![],
        vec![],
        vec![],
        AccountId::parse("near.testnet").unwrap(),
        "10000".parse::<u128>().unwrap(),
        "Manager_name".to_string(),
        "100000".parse::<u128>().unwrap(),
        FeeSchedule::new(
            "200".parse::<u128>().unwrap(),
            "50".parse::<u128>().unwrap(),
            "50".parse::<u128>().unwrap(),
        )
        .unwrap(),
        "manager.testnet".parse::<String>().map(|s| account(&s)).unwrap(),
        account("platform.testnet"),
        account("distributor.testnet"),
    )
    .unwrap()
}

#[test]
fn test_new() {
    let contract = default_contract();
    assert_eq!(contract.min_investment(), 10000);
    assert_eq!(contract.base_price(), 100000);
    assert_eq!(contract.decimals(), 24);
    assert_eq!(contract.token_manager(), "Manager_name");
    assert_eq!(*contract.input_token(), account("near.testnet"));
    assert!(contract.ft_token_allocation().is_empty());
    assert_eq!(contract.fees(), FeeSchedule::new(200, 50, 50).unwrap());
    assert_eq!(*contract.manager(), account("manager.testnet"));
    assert_eq!(*contract.platform(), account("platform.testnet"));
    assert_eq!(*contract.distributor(), account("distributor.testnet"));
    let owner = context("alice", "alice");
    let ledger = Contract::ft_mint(&owner, ShareBalances { balance: 0, total_supply: 0 }, TOTAL_SUPPLY)
        .unwrap();
    assert_eq!(ledger.total_supply, TOTAL_SUPPLY);
    assert_eq!(ledger.balance, TOTAL_SUPPLY);
}

#[test]
fn test_mint() {
    let _contract = default_contract();
    let ctx = context("alice", "alice");
    let total_supply_before_mint: u128 = TOTAL_SUPPLY;
    let mint_token_count: u128 = 100000;
    let after = Contract::ft_mint(
        &ctx,
        ShareBalances { balance: 0, total_supply: total_supply_before_mint },
        mint_token_count,
    )
    .unwrap();
    let total_supply_after_mint: u128 = after.total_supply;
    assert_eq!(total_supply_after_mint, total_supply_before_mint + mint_token_count);
    assert_eq!(after.balance, mint_token_count);
}

#[test]
fn mint_is_for_the_contract_alone() {
    let stranger = context("alice", "bob");
    assert_eq!(
        Contract::ft_mint(&stranger, ShareBalances { balance: 0, total_supply: 0 }, 1),
        Err(SagaError::Unauthorized)
    );
    assert_eq!(
        Contract::ft_burn(&stranger, ShareBalances { balance: 5, total_supply: 9 }, 1),
        Err(SagaError::Unauthorized)
    );
}

#[test]
fn mint_does_not_wrap() {
    let ctx = context("alice", "alice");
    assert_eq!(
        Contract::ft_mint(&ctx, ShareBalances { balance: 0, total_supply: u128::MAX }, 1),
        Err(SagaError::ArithmeticOverflow)
    );
    assert_eq!(
        Contract::ft_mint(&ctx, ShareBalances { balance: u128::MAX, total_supply: 0 }, 1),
        Err(SagaError::ArithmeticOverflow)
    );
    assert_eq!(
        Contract::ft_mint(&ctx, ShareBalances { balance: 1, total_supply: u128::MAX - 1 }, 1),
        Ok(ShareBalances { balance: 2, total_supply: u128::MAX })
    );
}

#[test]
fn burn_takes_what_is_there() {
    let ctx = context("alice", "alice");
    assert_eq!(
        Contract::ft_burn(&ctx, ShareBalances { balance: 70, total_supply: 100 }, 30),
        Ok(ShareBalances { balance: 40, total_supply: 70 })
    );
    assert_eq!(
        Contract::ft_burn(&ctx, ShareBalances { balance: 70, total_supply: 100 }, 70),
        Ok(ShareBalances { balance: 0, total_supply: 30 })
    );
    assert_eq!(
        Contract::ft_burn(&ctx, ShareBalances { balance: 70, total_supply: 100 }, 71),
        Err(SagaError::InsufficientBalance)
    );
    assert_eq!(
        Contract::ft_burn(&ctx, ShareBalances { balance: 100, total_supply: 100 }, 100),
        Ok(ShareBalances { balance: 0, total_supply: 0 })
    );
    assert_eq!(
        Contract::ft_burn(&ctx, ShareBalances { balance: 100, total_supply: 60 }, 61),
        Err(SagaError::InsufficientBalance)
    );
}

#[test]
fn shares_for_a_deposit() {
    assert_eq!(share_quantity(98000, 100000, 24), Ok(980_000_000_000_000_000_000_000));
    assert_eq!(share_quantity(100000, 100000, 24), Ok(1_000_000_000_000_000_000_000_000));
    assert_eq!(share_quantity(1, 3, 1), Ok(3));
    assert_eq!(share_quantity(0, 7, 24), Ok(0));
    assert_eq!(share_quantity(5, 2, 0), Ok(2));
}

#[test]
fn shares_need_only_fit_themselves() {
    assert_eq!(
        share_quantity(1_000_000_000_000_000, 100000, 24),
        Ok(10_000_000_000_000_000_000_000_000_000_000_000)
    );
    assert_eq!(share_quantity(u128::MAX, 10, 1), Ok(u128::MAX));
    assert_eq!(share_quantity(u128::MAX, u128::MAX, 38), Ok(100_000_000_000_000_000_000_000_000_000_000_000_000));
    assert_eq!(share_quantity(1, 100_000_000_000_000_000_000_000_000_000_000_000_000, 39), Ok(10));
    assert_eq!(share_quantity(1, u128::MAX, 255), Err(SagaError::ArithmeticOverflow));
    assert_eq!(share_quantity(7, u128::MAX, 38), Ok(2));
}

#[test]
fn shares_that_cannot_be_computed() {
    assert_eq!(share_quantity(98000, 0, 24), Err(SagaError::ArithmeticOverflow));
    assert_eq!(share_quantity(0, 0, 0), Err(SagaError::ArithmeticOverflow));
    assert_eq!(share_quantity(1, 1, 39), Err(SagaError::ArithmeticOverflow));
    assert_eq!(share_quantity(u128::MAX, 1, 1), Err(SagaError::ArithmeticOverflow));
    assert_eq!(share_quantity(u128::MAX / 10 + 1, 1, 1), Err(SagaError::ArithmeticOverflow));
    assert_eq!(share_quantity(u128::MAX / 10, 1, 1), Ok(u128::MAX / 10 * 10));
    assert_eq!(share_quantity(u128::MAX, 1, 0), Ok(u128::MAX));
}

#[test]
fn what_shares_stand_for() {
    let one = 1_000_000_000_000_000_000_000_000u128;
    assert_eq!(holding(one, 60, 24), Ok(60));
    assert_eq!(holding(one / 2, 60, 24), Ok(30));
    assert_eq!(holding(one / 7, 60, 24), Ok(8));
    assert_eq!(holding(0, 60, 24), Ok(0));
    assert_eq!(holding(u128::MAX, 2, 24), Ok(680_564_733_841_876));
    assert_eq!(holding(1, 1, 39), Ok(0));
    assert_eq!(holding(u128::MAX, u128::MAX, 255), Ok(0));
    assert_eq!(holding(u128::MAX, 10, 1), Ok(u128::MAX));
    assert_eq!(holding(u128::MAX, 10, 0), Err(SagaError::ArithmeticOverflow));
    assert_eq!(holding(u128::MAX, u128::MAX, 38), Err(SagaError::ArithmeticOverflow));
    assert_eq!(holding(u128::MAX, u128::MAX, 39), Ok(115_792_089_237_316_195_423_570_985_008_687_907_852));
}

#[test]
fn quotients_are_exact_digit_by_digit() {
    assert_eq!(scale_up_over(1, 0, 1), Some(1));
    assert_eq!(scale_up_over(2, 3, 3), Some(666));
    assert_eq!(scale_up_over(1, 2, 7), Some(14));
    assert_eq!(scale_up_over(5, 1, 0), None);
    assert_eq!(scale_up_over(u128::MAX - 1, 5, u128::MAX), Some(99999));
    assert_eq!(scale_down_product(12345, 6789, 3), Some(83810));
    assert_eq!(scale_down_product(99, 99, 0), Some(9801));
    assert_eq!(scale_down_product(u128::MAX, 1_000, 3), Some(u128::MAX));
    assert_eq!(scale_down_product(u128::MAX, 1_001, 3), None);
    assert_eq!(scale_down_product(0, u128::MAX, 0), Some(0));
}

#[test]
fn storage_is_charged_by_the_byte() {
    let price = 10_000_000_000_000_000_000u128;
    assert_eq!(settle_storage(100, 103, 3 * price), StorageCharge::Covered { refund: None });
    assert_eq!(settle_storage(100, 103, 3 * price + 1), StorageCharge::Covered { refund: None });
    assert_eq!(settle_storage(100, 103, 3 * price + 2), StorageCharge::Covered { refund: Some(2) });
    assert_eq!(settle_storage(100, 103, 3 * price - 1), StorageCharge::Short { required: 3 * price });
    assert_eq!(settle_storage(100, 100, 0), StorageCharge::Covered { refund: None });
    assert_eq!(settle_storage(100, 90, 5), StorageCharge::Covered { refund: Some(5) });
    assert_eq!(
        settle_storage(0, u64::MAX, 1),
        StorageCharge::Short { required: u64::MAX as u128 * price }
    );
}

#[test]
fn configuration_is_for_the_administrator_alone() {
    let mut contract = default_contract();
    let admin = context("index.near", "index.near");
    let stranger = context("index.near", "mallory.near");
    assert_eq!(contract.update_base_price(&stranger, 5), Err(SagaError::Unauthorized));
    assert_eq!(contract.update_input_token(&stranger, account("usdc.near")), Err(SagaError::Unauthorized));
    assert_eq!(
        contract.update_token_allocation(&stranger, vec![account("a.near")], vec![1], vec![1]),
        Err(SagaError::Unauthorized)
    );
    assert_eq!(
        contract.update_token_swap_pool(&stranger, vec![account("a.near")], vec![1]),
        Err(SagaError::Unauthorized)
    );
    assert_eq!(contract.base_price(), 100000);
    assert_eq!(*contract.input_token(), account("near.testnet"));
    assert!(contract.ft_token_allocation().is_empty());

    contract.update_base_price(&admin, 5).unwrap();
    contract.update_input_token(&admin, account("usdc.near")).unwrap();
    assert_eq!(contract.base_price(), 5);
    assert_eq!(*contract.input_token(), account("usdc.near"));
}

#[test]
fn the_basket_is_updated_whole() {
    let mut contract = default_contract();
    let admin = context("index.near", "index.near");
    contract
        .update_token_allocation(&admin, vec![account("a.near"), account("b.near")], vec![60, 40], vec![1, 2])
        .unwrap();
    let entry = |name: &str, weight: u128, route: u64| AllocationEntry {
        asset_id: account(name),
        target_weight: weight,
        venue_route: route,
    };
    assert_eq!(contract.ft_token_allocation(), vec![entry("a.near", 60, 1), entry("b.near", 40, 2)]);
    assert_eq!(
        contract.update_token_allocation(&admin, vec![account("c.near"), account("c.near")], vec![1, 2], vec![1, 2]),
        Err(SagaError::InvalidAllocation)
    );
    assert_eq!(
        contract.update_token_allocation(&admin, vec![account("c.near")], vec![1, 2], vec![1]),
        Err(SagaError::InvalidAllocation)
    );
    assert_eq!(contract.ft_token_allocation(), vec![entry("a.near", 60, 1), entry("b.near", 40, 2)]);
    contract.update_token_swap_pool(&admin, vec![account("b.near")], vec![22]).unwrap();
    assert_eq!(contract.ft_token_allocation(), vec![entry("a.near", 60, 1), entry("b.near", 40, 22)]);
    assert_eq!(
        contract.update_token_swap_pool(&admin, vec![account("z.near")], vec![1]),
        Err(SagaError::UnknownAsset)
    );
    assert_eq!(
        contract.update_token_swap_pool(&admin, vec![account("a.near")], vec![]),
        Err(SagaError::InvalidAllocation)
    );
}

#[test]
fn a_basket_must_be_well_formed_from_the_start() {
    let build = |tokens: Vec<AccountId>, weights: Vec<u128>, pools: Vec<u64>| {
        Contract::new(
            18,
            tokens,
            weights,
            pools,
            account("near.testnet"),
            1,
            "m".to_string(),
            1,
            FeeSchedule::new(0, 0, 0).unwrap(),
            account("manager.testnet"),
            account("platform.testnet"),
            account("distributor.testnet"),
        )
    };
    assert_eq!(build(vec![account("a.near")], vec![1], vec![1]).unwrap().decimals(), 18);
    assert_eq!(build(vec![account("a.near")], vec![], vec![1]).unwrap_err(), SagaError::InvalidAllocation);
    assert_eq!(
        build(vec![account("a.near"), account("a.near")], vec![1, 2], vec![1, 2]).unwrap_err(),
        SagaError::InvalidAllocation
    );
}

#[test]
fn fees_are_for_the_administrator_to_set() {
    let mut contract = default_contract();
    let admin = context("index.near", "index.near");
    let stranger = context("index.near", "mallory.near");
    let dearer = FeeSchedule::new(300, 0, 1).unwrap();
    assert_eq!(contract.update_fee_schedule(&stranger, dearer), Err(SagaError::Unauthorized));
    assert_eq!(contract.fees(), FeeSchedule::new(200, 50, 50).unwrap());
    contract.update_fee_schedule(&admin, dearer).unwrap();
    assert_eq!(contract.fees(), dearer);
}

#[test]
fn every_error_has_its_words() {
    let all = [
        SagaError::InvalidAllocation,
        SagaError::UnknownAsset,
        SagaError::ArithmeticOverflow,
        SagaError::BelowMinimum,
        SagaError::InsufficientShares,
        SagaError::InsufficientBalance,
        SagaError::Unauthorized,
        SagaError::VenueCallFailed,
        SagaError::CompensationFailed,
    ];
    for (i, a) in all.iter().enumerate() {
        assert!(!a.message().is_empty());
        for b in &all[i + 1..] {
            assert_ne!(a.message(), b.message());
        }
    }
    assert_eq!(SagaError::BelowMinimum.message(), "Attached amount is less then Minimum amount");
    assert_eq!(SagaError::InsufficientShares.message(), "Insufficient Index token");
}
