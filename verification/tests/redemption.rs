use index_fund::account::AccountId;
use index_fund::calls::{Action, Call, Note};
use index_fund::contract::{CallContext, Contract};
use index_fund::error::SagaError;
use index_fund::fees::FeeSchedule;
use index_fund::redemption::{
    commit_redemption, settle_redemption, RedemptionSaga, RedemptionStep,
};
use index_fund::shares::ShareBalances;

const ONE_SHARE: u128 = 1_000_000_000_000_000_000_000_000;

fn account(name: &str) -> AccountId {
    AccountId::parse(name).unwrap()
}

fn holder() -> CallContext {
    CallContext {
        current_account_id: account("index.near"),
        signer_account_id: account("carol.near"),
        predecessor_account_id: account("carol.near"),
    }
}

fn contract() -> Contract {
    contract_of(24)
}

fn contract_of(decimals: u8) -> Contract {
    Contract::new(
        decimals,
        vec![account("a.near"), account("b.near")],
        vec![60, 40],
        vec![1, 2],
        account("usdc.near"),
        10000,
        "Manager_name".to_string(),
        100000,
        FeeSchedule::new(100, 50, 50).unwrap(),
        account("manager.testnet"),
        account("platform.testnet"),
        account("distributor.testnet"),
    )
    .unwrap()
}

fn swaps_back() -> Vec<Action> {
    vec![
        Action {
            pool_id: 1,
            token_in: account("a.near"),
            amount_in: 120,
            token_out: account("usdc.near"),
            min_amount_out: 1,
        },
        Action {
            pool_id: 2,
            token_in: account("b.near"),
            amount_in: 80,
            token_out: account("usdc.near"),
            min_amount_out: 1,
        },
    ]
}

fn swapping_back() -> RedemptionSaga {
    contract().sell_token(&holder(), 5 * ONE_SHARE, 2 * ONE_SHARE, 150).unwrap().0
}

#[test]
fn a_redemption_is_worked_out_before_anything_is_sent() {
    let saga =
        RedemptionSaga::initiate(&contract(), &account("carol.near"), 5 * ONE_SHARE, 2 * ONE_SHARE, 150)
            .unwrap();
    assert_eq!(saga.step, RedemptionStep::Initiated);
    assert_eq!(saga.holder, account("carol.near"));
    assert_eq!(saga.base_asset, account("usdc.near"));
    assert_eq!(saga.share_quantity, 2 * ONE_SHARE);
    assert_eq!(saga.amount_to_return, 150);
    assert_eq!(saga.swaps, swaps_back());
    assert!(!saga.is_over());
}

#[test]
fn selling_asks_for_the_swap_back() {
    let (saga, calls) = contract().sell_token(&holder(), 5 * ONE_SHARE, 2 * ONE_SHARE, 150).unwrap();
    assert_eq!(saga.step, RedemptionStep::SwappedBack);
    assert_eq!(calls, vec![Call::Swap { actions: swaps_back() }]);
}

#[test]
fn more_shares_than_held_cannot_be_redeemed() {
    assert_eq!(
        contract().sell_token(&holder(), ONE_SHARE, ONE_SHARE + 1, 150).unwrap_err(),
        SagaError::InsufficientShares
    );
    assert_eq!(
        contract().sell_token(&holder(), 0, 1, 0).unwrap_err(),
        SagaError::InsufficientShares
    );
    assert!(contract().sell_token(&holder(), ONE_SHARE, ONE_SHARE, 150).is_ok());
}

#[test]
fn a_redemption_that_does_not_fit_is_refused() {
    let coarse = contract_of(0);
    assert_eq!(
        coarse.sell_token(&holder(), u128::MAX, u128::MAX, 150).unwrap_err(),
        SagaError::ArithmeticOverflow
    );
    let (saga, _) = contract().sell_token(&holder(), u128::MAX, u128::MAX, 150).unwrap();
    assert_eq!(saga.swaps[0].amount_in, 20_416_942_015_256_307);
    let fine = contract_of(39);
    let (saga, _) = fine.sell_token(&holder(), 1, 1, 150).unwrap();
    assert_eq!(saga.swaps[0].amount_in, 0);
}

#[test]
fn a_redemption_that_goes_through() {
    let (saga, calls) = Contract::call_withdraw_for(swapping_back(), true);
    assert_eq!(saga.step, RedemptionStep::Withdrawn);
    assert_eq!(calls, vec![Call::Withdraw { asset: account("usdc.near"), amount: 150 }]);
    assert!(!saga.is_over());

    let (saga, calls) = Contract::burn_index(saga, true);
    assert_eq!(saga.step, RedemptionStep::Committed);
    assert_eq!(
        calls,
        vec![
            Call::Burn { account: account("carol.near"), amount: 2 * ONE_SHARE },
            Call::Transfer {
                asset: account("usdc.near"),
                to: account("carol.near"),
                amount: 150,
                memo: Note::Blank,
            },
        ]
    );
    assert!(saga.is_over());
    assert_eq!(saga.failure(), None);
}

#[test]
fn a_swap_back_that_fails_leaves_the_shares() {
    let (saga, calls) = swapping_back().advance(false);
    assert_eq!(saga.step, RedemptionStep::Failed);
    assert!(calls.is_empty());
    assert!(saga.is_over());
    assert_eq!(saga.failure(), Some(SagaError::VenueCallFailed));
    let (saga, calls) = saga.advance(true);
    assert_eq!(saga.step, RedemptionStep::Failed);
    assert!(calls.is_empty());
}

#[test]
fn a_withdrawal_that_fails_leaves_the_shares() {
    let (saga, _) = swapping_back().advance(true);
    let (saga, calls) = saga.advance(false);
    assert_eq!(saga.step, RedemptionStep::Failed);
    assert!(calls.is_empty());
    assert_eq!(saga.failure(), Some(SagaError::VenueCallFailed));
}

#[test]
fn redemption_callbacks_out_of_turn_change_nothing() {
    let (saga, calls) = Contract::burn_index(swapping_back(), true);
    assert_eq!(saga.step, RedemptionStep::SwappedBack);
    assert!(calls.is_empty());
    let (saga, calls) = saga.swap_back();
    assert_eq!(saga.step, RedemptionStep::SwappedBack);
    assert!(calls.is_empty());
    let (saga, _) = saga.advance(true);
    let (saga, calls) = Contract::call_withdraw_for(saga, true);
    assert_eq!(saga.step, RedemptionStep::Withdrawn);
    assert!(calls.is_empty());
}

#[test]
fn shares_redeemed_at_once_return_no_more_than_the_net() {
    let contract = contract();
    let (issued, forward) = contract.buy_token(&holder(), 100000).unwrap();
    let net = match &forward[0] {
        Call::TransferAndNotify { amount, .. } => *amount,
        other => panic!("{:?}", other),
    };
    assert_eq!(net, 98000);
    let shares = issued.share_quantity;
    let (saga, _) = contract.sell_token(&holder(), shares, shares, net).unwrap();
    let (saga, _) = saga.advance(true);
    let (saga, calls) = saga.advance(true);
    assert_eq!(saga.step, RedemptionStep::Committed);
    assert_eq!(calls[0], Call::Burn { account: account("carol.near"), amount: shares });
    match &calls[1] {
        Call::Transfer { amount, to, .. } => {
            assert!(*amount <= net);
            assert_eq!(*to, account("carol.near"));
        },
        other => panic!("{:?}", other),
    }
}

fn withdrawn() -> RedemptionSaga {
    swapping_back().advance(true).0
}

fn contract_itself() -> CallContext {
    CallContext {
        current_account_id: account("index.near"),
        signer_account_id: account("carol.near"),
        predecessor_account_id: account("index.near"),
    }
}

#[test]
fn committing_burns_before_it_pays() {
    let before = ShareBalances { balance: 5 * ONE_SHARE, total_supply: 9 * ONE_SHARE };
    let (saga, after, calls) = commit_redemption(&contract_itself(), withdrawn(), before).unwrap();
    assert_eq!(saga.step, RedemptionStep::Committed);
    assert_eq!(after, ShareBalances { balance: 3 * ONE_SHARE, total_supply: 7 * ONE_SHARE });
    assert_eq!(
        calls,
        vec![
            Call::Burn { account: account("carol.near"), amount: 2 * ONE_SHARE },
            Call::Transfer {
                asset: account("usdc.near"),
                to: account("carol.near"),
                amount: 150,
                memo: Note::Blank,
            },
        ]
    );
}

#[test]
fn the_whole_supply_can_be_redeemed() {
    let before = ShareBalances { balance: 2 * ONE_SHARE, total_supply: 2 * ONE_SHARE };
    let (saga, after, calls) = commit_redemption(&contract_itself(), withdrawn(), before).unwrap();
    assert_eq!(saga.step, RedemptionStep::Committed);
    assert_eq!(after, ShareBalances { balance: 0, total_supply: 0 });
    assert_eq!(calls.len(), 2);
}

#[test]
fn a_burn_beyond_the_balance_stops_the_payment() {
    let short = ShareBalances { balance: 2 * ONE_SHARE - 1, total_supply: 9 * ONE_SHARE };
    assert_eq!(
        commit_redemption(&contract_itself(), withdrawn(), short).unwrap_err(),
        SagaError::InsufficientBalance
    );
    let odd = ShareBalances { balance: 2 * ONE_SHARE, total_supply: ONE_SHARE };
    assert_eq!(
        commit_redemption(&contract_itself(), withdrawn(), odd).unwrap_err(),
        SagaError::InsufficientBalance
    );
    assert_eq!(
        commit_redemption(&holder(), withdrawn(), ShareBalances { balance: u128::MAX, total_supply: u128::MAX })
            .unwrap_err(),
        SagaError::Unauthorized
    );
}

#[test]
fn committing_a_redemption_out_of_turn_changes_nothing() {
    let before = ShareBalances { balance: 0, total_supply: 0 };
    let (saga, after, calls) = commit_redemption(&contract_itself(), swapping_back(), before).unwrap();
    assert_eq!(saga.step, RedemptionStep::SwappedBack);
    assert_eq!(after, before);
    assert!(calls.is_empty());
}

#[test]
fn settling_follows_the_redemption_and_touches_the_ledger_once() {
    let ledger = ShareBalances { balance: 2 * ONE_SHARE, total_supply: 3 * ONE_SHARE };
    let ctx = contract_itself();
    let (saga, after, calls) = settle_redemption(&ctx, swapping_back(), true, ledger).unwrap();
    assert_eq!(saga.step, RedemptionStep::Withdrawn);
    assert_eq!(after, ledger);
    assert_eq!(calls, vec![Call::Withdraw { asset: account("usdc.near"), amount: 150 }]);

    let (saga, after, calls) = settle_redemption(&ctx, saga, true, ledger).unwrap();
    assert_eq!(saga.step, RedemptionStep::Committed);
    assert_eq!(after, ShareBalances { balance: 0, total_supply: ONE_SHARE });
    assert_eq!(calls.len(), 2);

    let (saga, again, calls) = settle_redemption(&ctx, saga, true, after).unwrap();
    assert_eq!(saga.step, RedemptionStep::Committed);
    assert_eq!(again, after);
    assert!(calls.is_empty());
}

#[test]
fn settling_a_failed_withdrawal_leaves_the_ledger() {
    let ledger = ShareBalances { balance: 0, total_supply: 0 };
    let ctx = contract_itself();
    let (saga, after, calls) = settle_redemption(&ctx, withdrawn(), false, ledger).unwrap();
    assert_eq!(saga.step, RedemptionStep::Failed);
    assert_eq!(after, ledger);
    assert!(calls.is_empty());
    assert_eq!(
        settle_redemption(&ctx, withdrawn(), true, ledger).unwrap_err(),
        SagaError::InsufficientBalance
    );
}
