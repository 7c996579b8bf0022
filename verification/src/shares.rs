//! How many shares a deposit buys, how much of each asset a share stands for,
//! and what minting and burning do to the ledger's numbers.

use crate::contract::{CallContext, Contract};
use crate::error::SagaError;
use crate::wide::{scale_down_product, scale_up_over, ten_to};
use vstd::prelude::*;

verus! {

/// One whole share, counted in its smallest units.
pub open spec fn share_unit(decimals: u8) -> nat {
    ten_to(decimals as nat)
}

/// The shares that `net` of the base asset buys at `base_price` for one whole
/// share, in smallest units, rounded down.
pub open spec fn shares_for(net: nat, base_price: nat, decimals: u8) -> nat {
    net * share_unit(decimals) / base_price
}

/// Whether there are no shares to give for `net`: there is no price, or the
/// shares do not fit in 128 bits.
pub open spec fn shares_overflow(net: nat, base_price: nat, decimals: u8) -> bool {
    base_price == 0 || shares_for(net, base_price, decimals) > u128::MAX
}

/// Computes the shares that `net_amount` buys: the net amount over the price of
/// one whole share, times the units of one whole share, rounded down once. Only
/// the shares themselves have to fit in 128 bits.
pub fn share_quantity(net_amount: u128, base_price: u128, decimals: u8) -> (shares: Result<
    u128,
    SagaError,
>)
    ensures
        shares is Err <==> shares_overflow(net_amount as nat, base_price as nat, decimals),
        shares matches Err(e) ==> e == SagaError::ArithmeticOverflow,
        shares matches Ok(q) ==> q == shares_for(net_amount as nat, base_price as nat, decimals),
{
    match scale_up_over(net_amount, decimals, base_price) {
        Some(shares) => Ok(shares),
        None => Err(SagaError::ArithmeticOverflow),
    }
}

/// What `shares` smallest units of shares stand for of an asset of which one
/// whole share holds `per_share`, rounded down.
pub open spec fn holding_of(shares: nat, per_share: nat, decimals: u8) -> nat {
    shares * per_share / share_unit(decimals)
}

/// Whether what the shares stand for does not fit in 128 bits.
pub open spec fn holding_overflows(shares: nat, per_share: nat, decimals: u8) -> bool {
    holding_of(shares, per_share, decimals) > u128::MAX
}

/// Computes what `shares` stand for of one asset. Only the amount itself has to
/// fit in 128 bits.
pub fn holding(shares: u128, per_share: u128, decimals: u8) -> (amount: Result<u128, SagaError>)
    ensures
        amount is Err <==> holding_overflows(shares as nat, per_share as nat, decimals),
        amount matches Err(e) ==> e == SagaError::ArithmeticOverflow,
        amount matches Ok(a) ==> a == holding_of(shares as nat, per_share as nat, decimals),
{
    match scale_down_product(shares, per_share, decimals) {
        Some(amount) => Ok(amount),
        None => Err(SagaError::ArithmeticOverflow),
    }
}

/// The two numbers of the ledger that minting and burning touch.
#[derive(Clone, Copy, Debug, PartialEq, Eq, Structural)]
pub struct ShareBalances {
    /// The shares of the account in question.
    pub balance: u128,
    /// All shares there are.
    pub total_supply: u128,
}

impl Contract {
    /// What the ledger holds after `amount` shares are created for an account.
    /// Only the contract itself may mint, and neither number may leave 128 bits.
    pub fn ft_mint(ctx: &CallContext, before: ShareBalances, amount: u128) -> (after: Result<
        ShareBalances,
        SagaError,
    >)
        ensures
            after is Ok <==> ctx.made_by_contract() && before.balance + amount <= u128::MAX
                && before.total_supply + amount <= u128::MAX,
            after matches Err(e) ==> e == (if !ctx.made_by_contract() {
                SagaError::Unauthorized
            } else {
                SagaError::ArithmeticOverflow
            }),
            after matches Ok(a) ==> a.balance == before.balance + amount && a.total_supply
                == before.total_supply + amount,
    {
        if !ctx.predecessor_account_id.same_as(&ctx.current_account_id) {
            return Err(SagaError::Unauthorized);
        }
        let balance = match before.balance.checked_add(amount) {
            Some(balance) => balance,
            None => { return Err(SagaError::ArithmeticOverflow); },
        };
        let total_supply = match before.total_supply.checked_add(amount) {
            Some(total_supply) => total_supply,
            None => { return Err(SagaError::ArithmeticOverflow); },
        };
        Ok(ShareBalances { balance, total_supply })
    }

    /// What the ledger holds after `amount` shares of an account are destroyed.
    /// Only the contract itself may burn, and the account must hold the shares.
    pub fn ft_burn(ctx: &CallContext, before: ShareBalances, amount: u128) -> (after: Result<
        ShareBalances,
        SagaError,
    >)
        ensures
            after is Ok <==> ctx.made_by_contract() && amount <= before.balance && amount
                <= before.total_supply,
            after matches Err(e) ==> e == (if !ctx.made_by_contract() {
                SagaError::Unauthorized
            } else {
                SagaError::InsufficientBalance
            }),
            after matches Ok(a) ==> a.balance == before.balance - amount && a.total_supply
                == before.total_supply - amount,
    {
        if !ctx.predecessor_account_id.same_as(&ctx.current_account_id) {
            return Err(SagaError::Unauthorized);
        }
        if amount > before.balance || amount > before.total_supply {
            return Err(SagaError::InsufficientBalance);
        }
        Ok(
            ShareBalances {
                balance: before.balance - amount,
                total_supply: before.total_supply - amount,
            },
        )
    }
}

} // verus!
