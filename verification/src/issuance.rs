//! Issuance: a deposit of the base asset becomes shares.
//!
//! The deposit is charged its fees and the rest is forwarded to the venue,
//! swapped there into the assets of the basket, and answered with shares. One
//! remote call is pending at a time. Where the swap fails after the funds were
//! forwarded, they are fetched back and refunded.

use crate::account::{venue_account, venue_name, AccountId};
use crate::allocation::{entry_views, AllocationEntry, EntryView};
use crate::calls::{action_views, call_views, copy_actions, Action, ActionView, Call, CallView, Note};
use crate::contract::{CallContext, Contract, ContractView};
use crate::error::SagaError;
use crate::fees::{
    compute_fees, fees_on, fees_overflow, portion_views, share_of, split_by_weight, split_of,
    split_overflows, total_weight, FeeBreakdown, Portion,
};
use crate::shares::{share_quantity, shares_for, shares_overflow, ShareBalances};
use vstd::prelude::*;

verus! {

/// How far an issuance has come.
#[derive(Clone, Copy, Debug, PartialEq, Eq, Structural)]
pub enum IssuanceStep {
    /// The deposit is accepted and all amounts are computed. Nothing was sent.
    Initiated,
    /// The net amount is on its way to the venue.
    FundsForwarded,
    /// The venue has the funds and was asked to swap them.
    Swapped,
    /// The swap went through; shares are minted and fees paid out.
    Committed,
    /// A call failed.
    Failed,
    /// The forwarded funds were fetched back and the refund was sent.
    Compensated,
    /// The forwarded funds could not be fetched back. They stay at the venue
    /// until someone steps in.
    CompensationFailed,
}

/// One issuance in flight. It holds copies of all that it needs of the
/// configuration, taken when it began.
#[derive(Debug)]
pub struct IssuanceSaga {
    /// Who deposits and gets the shares.
    pub initiator: AccountId,
    /// The base asset.
    pub base_asset: AccountId,
    /// The venue.
    pub venue: AccountId,
    /// Who gets the manager's fee.
    pub manager: AccountId,
    /// Who gets the platform's fee.
    pub platform: AccountId,
    /// Who gets the distributor's fee.
    pub distributor: AccountId,
    /// The deposit.
    pub gross_amount: u128,
    /// The fees on it and the net amount.
    pub fees: FeeBreakdown,
    /// One swap for each asset of the basket, of its portion of the net amount.
    pub swaps: Vec<Action>,
    /// The shares to mint.
    pub share_quantity: u128,
    /// How far it has come.
    pub step: IssuanceStep,
    /// Whether the forwarded funds are being fetched back.
    pub compensating: bool,
}

/// An issuance, with accounts named by their text.
pub struct IssuanceView {
    pub initiator: Seq<char>,
    pub base_asset: Seq<char>,
    pub venue: Seq<char>,
    pub manager: Seq<char>,
    pub platform: Seq<char>,
    pub distributor: Seq<char>,
    pub gross_amount: nat,
    pub fees: FeeBreakdown,
    pub swaps: Seq<ActionView>,
    pub share_quantity: nat,
    pub step: IssuanceStep,
    pub compensating: bool,
}

impl View for IssuanceSaga {
    type V = IssuanceView;

    open spec fn view(&self) -> IssuanceView {
        IssuanceView {
            initiator: self.initiator@,
            base_asset: self.base_asset@,
            venue: self.venue@,
            manager: self.manager@,
            platform: self.platform@,
            distributor: self.distributor@,
            gross_amount: self.gross_amount as nat,
            fees: self.fees,
            swaps: action_views(self.swaps@),
            share_quantity: self.share_quantity as nat,
            step: self.step,
            compensating: self.compensating,
        }
    }
}

impl IssuanceView {
    /// The same issuance at another step.
    pub open spec fn at(self, step: IssuanceStep, compensating: bool) -> IssuanceView {
        IssuanceView { step, compensating, ..self }
    }

    /// No call is pending and none will be made.
    pub open spec fn is_over(self) -> bool {
        match self.step {
            IssuanceStep::Committed | IssuanceStep::Compensated | IssuanceStep::CompensationFailed => true,
            IssuanceStep::Failed => !self.compensating,
            _ => false,
        }
    }

    /// The call that forwards the net amount to the venue.
    pub open spec fn forwarding(self) -> CallView {
        CallView::TransferAndNotify {
            asset: self.base_asset,
            to: self.venue,
            amount: self.fees.net_amount as nat,
            memo: Note::Blank,
            payload: Note::Blank,
        }
    }

    /// The call that swaps the net amount into the basket.
    pub open spec fn swapping(self) -> CallView {
        CallView::Swap { actions: self.swaps }
    }

    /// The calls of a completed issuance: the shares are minted first, then the
    /// three fees are paid out.
    pub open spec fn committing(self) -> Seq<CallView> {
        seq![
            CallView::Mint { account: self.initiator, amount: self.share_quantity },
            CallView::Transfer {
                asset: self.base_asset,
                to: self.manager,
                amount: self.fees.manager_fee as nat,
                memo: Note::ManagerFee,
            },
            CallView::Transfer {
                asset: self.base_asset,
                to: self.platform,
                amount: self.fees.platform_fee as nat,
                memo: Note::PlatformFee,
            },
            CallView::Transfer {
                asset: self.base_asset,
                to: self.distributor,
                amount: self.fees.distributor_fee as nat,
                memo: Note::DistributorFee,
            },
        ]
    }

    /// The call that fetches the forwarded amount back from the venue.
    pub open spec fn recalling(self) -> CallView {
        CallView::Withdraw { asset: self.base_asset, amount: self.fees.net_amount as nat }
    }

    /// The call that gives the forwarded amount back to the depositor.
    pub open spec fn refunding(self) -> CallView {
        CallView::Transfer {
            asset: self.base_asset,
            to: self.initiator,
            amount: self.fees.net_amount as nat,
            memo: Note::Refund,
        }
    }

    /// Where the issuance stands once its pending call has ended, and the calls to
    /// make then. An issuance that is over, or has not sent anything yet, stays
    /// as it is.
    pub open spec fn settled(self, succeeded: bool) -> (IssuanceView, Seq<CallView>) {
        match self.step {
            IssuanceStep::FundsForwarded => if succeeded {
                (self.at(IssuanceStep::Swapped, false), seq![self.swapping()])
            } else {
                (self.at(IssuanceStep::Failed, false), Seq::empty())
            },
            IssuanceStep::Swapped => if succeeded {
                (self.at(IssuanceStep::Committed, false), self.committing())
            } else {
                (self.at(IssuanceStep::Failed, true), seq![self.recalling()])
            },
            IssuanceStep::Failed => if !self.compensating {
                (self, Seq::empty())
            } else if succeeded {
                (self.at(IssuanceStep::Compensated, false), seq![self.refunding()])
            } else {
                (self.at(IssuanceStep::CompensationFailed, false), Seq::empty())
            },
            _ => (self, Seq::empty()),
        }
    }
}

/// The swaps of `net` over the entries, each by its weight out of `total`: for
/// each entry, in order, its share goes from the base asset into the entry's
/// asset through the entry's pool, and the venue must give at least the entry's
/// weight.
pub open spec fn swaps_with(entries: Seq<EntryView>, base: Seq<char>, net: nat, total: nat) -> Seq<
    ActionView,
> {
    Seq::new(
        entries.len(),
        |i: int|
            ActionView {
                pool_id: entries[i].venue_route,
                token_in: base,
                amount_in: share_of(entries[i].target_weight as nat, net, total),
                token_out: entries[i].asset_id,
                min_amount_out: entries[i].target_weight as nat,
            },
    )
}

/// The swaps of an issuance: one for each portion of the split of `net` over the
/// basket by weight.
pub open spec fn issuance_swaps(entries: Seq<EntryView>, base: Seq<char>, net: nat) -> Seq<
    ActionView,
> {
    swaps_with(entries, base, net, total_weight(entries))
}

/// The net amount of a deposit.
pub open spec fn net_of(contract: ContractView, gross: nat) -> nat {
    fees_on(contract.fees, gross).net_amount as nat
}

/// Why a deposit of `gross` is refused, if it is: it is below the minimum, or
/// one of the amounts does not fit in 128 bits.
pub open spec fn issuance_refused(contract: ContractView, gross: nat) -> Option<SagaError> {
    if gross < contract.min_investment {
        Some(SagaError::BelowMinimum)
    } else if fees_overflow(contract.fees, gross) || split_overflows(
        contract.allocation,
        net_of(contract, gross),
    ) || shares_overflow(net_of(contract, gross), contract.base_price as nat, contract.decimals) {
        Some(SagaError::ArithmeticOverflow)
    } else {
        None
    }
}

/// The issuance that a deposit of `gross` by `initiator` begins.
pub open spec fn issuance_of(contract: ContractView, initiator: Seq<char>, gross: nat) -> IssuanceView {
    IssuanceView {
        initiator,
        base_asset: contract.input_token,
        venue: venue_name(),
        manager: contract.manager,
        platform: contract.platform,
        distributor: contract.distributor,
        gross_amount: gross,
        fees: fees_on(contract.fees, gross),
        swaps: issuance_swaps(contract.allocation, contract.input_token, net_of(contract, gross)),
        share_quantity: shares_for(
            net_of(contract, gross),
            contract.base_price as nat,
            contract.decimals,
        ),
        step: IssuanceStep::Initiated,
        compensating: false,
    }
}

/// Makes the swaps of an issuance from the basket and its split.
fn swaps_into_basket(basket: &Vec<AllocationEntry>, portions: &Vec<Portion>, base: &AccountId) -> (swaps:
    Vec<Action>)
    requires
        portions.len() == basket.len(),
    ensures
        swaps.len() == basket.len(),
        forall|i: int|
            0 <= i < swaps.len() ==> (#[trigger] swaps[i])@ == (ActionView {
                pool_id: basket[i].venue_route,
                token_in: base@,
                amount_in: portions[i].amount as nat,
                token_out: basket[i].asset_id@,
                min_amount_out: basket[i].target_weight as nat,
            }),
{
    let mut swaps: Vec<Action> = Vec::new();
    let mut i: usize = 0;
    while i < basket.len()
        invariant
            i <= basket.len(),
            portions.len() == basket.len(),
            swaps.len() == i,
            forall|k: int|
                0 <= k < i ==> (#[trigger] swaps[k])@ == (ActionView {
                    pool_id: basket[k].venue_route,
                    token_in: base@,
                    amount_in: portions[k].amount as nat,
                    token_out: basket[k].asset_id@,
                    min_amount_out: basket[k].target_weight as nat,
                }),
        decreases basket.len() - i,
    {
        swaps.push(
            Action {
                pool_id: basket[i].venue_route,
                token_in: base.clone(),
                amount_in: portions[i].amount,
                token_out: basket[i].asset_id.clone(),
                min_amount_out: basket[i].target_weight,
            },
        );
        i += 1;
    }
    swaps
}

impl IssuanceSaga {
    /// Accepts a deposit of `gross_amount` by `initiator`: checks it against the
    /// minimum, which it may equal, copies what it needs of the configuration,
    /// and computes the fees, the split and the shares. Nothing is sent yet, and
    /// nothing will be where an amount does not fit.
    pub fn initiate(contract: &Contract, initiator: &AccountId, gross_amount: u128) -> (saga: Result<
        IssuanceSaga,
        SagaError,
    >)
        ensures
            match issuance_refused(contract@, gross_amount as nat) {
                Some(e) => saga == Err::<IssuanceSaga, SagaError>(e),
                None => saga matches Ok(s) && s@ == issuance_of(
                    contract@,
                    initiator@,
                    gross_amount as nat,
                ),
            },
    {
        if gross_amount < contract.min_investment() {
            return Err(SagaError::BelowMinimum);
        }
        let schedule = contract.fees();
        let fees = match compute_fees(gross_amount, &schedule) {
            Ok(fees) => fees,
            Err(e) => { return Err(e); },
        };
        let basket = contract.ft_token_allocation();
        let portions = match split_by_weight(fees.net_amount, &basket) {
            Ok(portions) => portions,
            Err(e) => { return Err(e); },
        };
        let share_quantity = match share_quantity(
            fees.net_amount,
            contract.base_price(),
            contract.decimals(),
        ) {
            Ok(share_quantity) => share_quantity,
            Err(e) => { return Err(e); },
        };
        let swaps = swaps_into_basket(&basket, &portions, contract.input_token());
        proof {
            let net = fees.net_amount as nat;
            let split = split_of(entry_views(basket@), net);
            assert(portion_views(portions@).len() == split.len());
            assert forall|i: int| 0 <= i < swaps.len() implies (#[trigger] action_views(swaps@)[i])
                == issuance_swaps(contract@.allocation, contract@.input_token, net)[i] by {
                assert(portion_views(portions@)[i] == split[i]);
                assert(entry_views(basket@)[i] == basket[i]@);
            }
            assert(action_views(swaps@) =~= issuance_swaps(
                contract@.allocation,
                contract@.input_token,
                net,
            ));
        }
        Ok(
            IssuanceSaga {
                initiator: initiator.clone(),
                base_asset: contract.input_token().clone(),
                venue: venue_account(),
                manager: contract.manager().clone(),
                platform: contract.platform().clone(),
                distributor: contract.distributor().clone(),
                gross_amount,
                fees,
                swaps,
                share_quantity,
                step: IssuanceStep::Initiated,
                compensating: false,
            },
        )
    }

    /// Sends the net amount of a freshly accepted deposit to the venue. An
    /// issuance at any other step stays as it is and sends nothing.
    pub fn forward_funds(self) -> (next: (IssuanceSaga, Vec<Call>))
        ensures
            self@.step == IssuanceStep::Initiated ==> next.0@ == self@.at(
                IssuanceStep::FundsForwarded,
                false,
            ) && call_views(next.1@) == seq![self@.forwarding()],
            self@.step != IssuanceStep::Initiated ==> next.0@ == self@ && next.1@.len() == 0,
    {
        let mut calls: Vec<Call> = Vec::new();
        match self.step {
            IssuanceStep::Initiated => {
                calls.push(
                    Call::TransferAndNotify {
                        asset: self.base_asset.clone(),
                        to: self.venue.clone(),
                        amount: self.fees.net_amount,
                        memo: Note::Blank,
                        payload: Note::Blank,
                    },
                );
                assert(call_views(calls@) =~= seq![self@.forwarding()]);
                (
                    IssuanceSaga { step: IssuanceStep::FundsForwarded, compensating: false, ..self },
                    calls,
                )
            },
            _ => (self, calls),
        }
    }

    /// Takes the outcome of the transfer to the venue. Where it went through, the
    /// venue is asked to make the swaps; where it failed, the issuance has failed
    /// and nothing is to be fetched back. An issuance that is not waiting for
    /// that transfer stays as it is.
    pub fn transfer_settled(self, succeeded: bool) -> (next: (IssuanceSaga, Vec<Call>))
        ensures
            (next.0@, call_views(next.1@)) == (if self@.step == IssuanceStep::FundsForwarded {
                self@.settled(succeeded)
            } else {
                (self@, Seq::empty())
            }),
    {
        let mut calls: Vec<Call> = Vec::new();
        match self.step {
            IssuanceStep::FundsForwarded => {
                if succeeded {
                    calls.push(Call::Swap { actions: copy_actions(&self.swaps) });
                    assert(call_views(calls@) =~= seq![self@.swapping()]);
                    (
                        IssuanceSaga { step: IssuanceStep::Swapped, compensating: false, ..self },
                        calls,
                    )
                } else {
                    assert(call_views(calls@) =~= Seq::empty());
                    (
                        IssuanceSaga { step: IssuanceStep::Failed, compensating: false, ..self },
                        calls,
                    )
                }
            },
            _ => {
                assert(call_views(calls@) =~= Seq::empty());
                (self, calls)
            },
        }
    }

    /// Takes the outcome of whichever call is pending and says where the issuance
    /// stands then and which calls to make.
    pub fn advance(self, succeeded: bool) -> (next: (IssuanceSaga, Vec<Call>))
        ensures
            (next.0@, call_views(next.1@)) == self@.settled(succeeded),
    {
        match self.step {
            IssuanceStep::FundsForwarded => self.transfer_settled(succeeded),
            IssuanceStep::Swapped => Contract::mint_index(self, succeeded),
            IssuanceStep::Failed => settle_recall(self, succeeded),
            _ => {
                let calls: Vec<Call> = Vec::new();
                assert(call_views(calls@) =~= Seq::empty());
                (self, calls)
            },
        }
    }

    /// Takes the outcome of one of the fee payouts of a completed issuance. A
    /// payout that failed is reported, and that is all: the issuance stays as it
    /// is, the minted shares stay minted, and no call is made. On an issuance
    /// that is not complete there is nothing to report.
    pub fn payout_settled(self, succeeded: bool) -> (next: (IssuanceSaga, Vec<Call>, Option<
        SagaError,
    >))
        ensures
            next.0@ == self@,
            call_views(next.1@) == Seq::<CallView>::empty(),
            next.2 == (if self@.step == IssuanceStep::Committed && !succeeded {
                Some(SagaError::VenueCallFailed)
            } else {
                None
            }),
    {
        let calls: Vec<Call> = Vec::new();
        assert(call_views(calls@) =~= Seq::<CallView>::empty());
        let report = match self.step {
            IssuanceStep::Committed => if succeeded {
                None
            } else {
                Some(SagaError::VenueCallFailed)
            },
            _ => None,
        };
        (self, calls, report)
    }

    /// Whether the issuance is over: no call is pending and none will be made.
    pub fn is_over(&self) -> (over: bool)
        ensures
            over == self@.is_over(),
    {
        match self.step {
            IssuanceStep::Committed | IssuanceStep::Compensated | IssuanceStep::CompensationFailed => true,
            IssuanceStep::Failed => !self.compensating,
            _ => false,
        }
    }

    /// What went wrong, if anything did: a call failed, or worse, the forwarded
    /// funds could not be fetched back.
    pub fn failure(&self) -> (error: Option<SagaError>)
        ensures
            error == match self@.step {
                IssuanceStep::Failed | IssuanceStep::Compensated => Some(
                    SagaError::VenueCallFailed,
                ),
                IssuanceStep::CompensationFailed => Some(SagaError::CompensationFailed),
                _ => None,
            },
    {
        match self.step {
            IssuanceStep::Failed | IssuanceStep::Compensated => Some(SagaError::VenueCallFailed),
            IssuanceStep::CompensationFailed => Some(SagaError::CompensationFailed),
            _ => None,
        }
    }
}

/// A transfer of the base asset of an issuance.
fn pay(saga: &IssuanceSaga, to: &AccountId, amount: u128, memo: Note) -> (call: Call)
    ensures
        call@ == (CallView::Transfer { asset: saga@.base_asset, to: to@, amount: amount as nat, memo }),
{
    Call::Transfer { asset: saga.base_asset.clone(), to: to.clone(), amount, memo }
}

impl Contract {
    /// Begins an issuance for the signer of the call and sends the net amount of
    /// the deposit to the venue. A deposit below the minimum, or one whose amounts
    /// do not fit, is refused and nothing is sent.
    pub fn buy_token(&self, ctx: &CallContext, amount: u128) -> (started: Result<
        (IssuanceSaga, Vec<Call>),
        SagaError,
    >)
        ensures
            match issuance_refused(self@, amount as nat) {
                Some(e) => started == Err::<(IssuanceSaga, Vec<Call>), SagaError>(e),
                None => started matches Ok(s) && s.0@ == issuance_of(
                    self@,
                    ctx.signer_account_id@,
                    amount as nat,
                ).at(IssuanceStep::FundsForwarded, false) && call_views(s.1@)
                    == seq![issuance_of(self@, ctx.signer_account_id@, amount as nat).forwarding()],
            },
    {
        match IssuanceSaga::initiate(self, &ctx.signer_account_id, amount) {
            Ok(saga) => Ok(saga.forward_funds()),
            Err(e) => Err(e),
        }
    }

    /// Takes the outcome of the swap. Where it went through, the shares are
    /// minted to the depositor and then the three fees are paid out, and the
    /// issuance is complete. Where it failed, the issuance has failed and the
    /// forwarded funds are fetched back; no share is minted. An issuance that is
    /// not waiting for its swap stays as it is.
    pub fn mint_index(saga: IssuanceSaga, succeeded: bool) -> (next: (IssuanceSaga, Vec<Call>))
        ensures
            (next.0@, call_views(next.1@)) == (if saga@.step == IssuanceStep::Swapped {
                saga@.settled(succeeded)
            } else {
                (saga@, Seq::empty())
            }),
    {
        let mut calls: Vec<Call> = Vec::new();
        match saga.step {
            IssuanceStep::Swapped => {
                if succeeded {
                    calls.push(
                        Call::Mint { account: saga.initiator.clone(), amount: saga.share_quantity },
                    );
                    calls.push(pay(&saga, &saga.manager, saga.fees.manager_fee, Note::ManagerFee));
                    calls.push(
                        pay(&saga, &saga.platform, saga.fees.platform_fee, Note::PlatformFee),
                    );
                    calls.push(
                        pay(
                            &saga,
                            &saga.distributor,
                            saga.fees.distributor_fee,
                            Note::DistributorFee,
                        ),
                    );
                    assert(call_views(calls@) =~= saga@.committing());
                    (
                        IssuanceSaga { step: IssuanceStep::Committed, compensating: false, ..saga },
                        calls,
                    )
                } else {
                    recall_funds(saga)
                }
            },
            _ => {
                assert(call_views(calls@) =~= Seq::empty());
                (saga, calls)
            },
        }
    }
}

/// Why shares cannot be minted on top of what the ledger holds, if they cannot:
/// the call does not come from the contract itself, or the account's shares or
/// all shares would leave 128 bits.
pub open spec fn mint_refused(ctx: &CallContext, before: ShareBalances, amount: nat) -> Option<
    SagaError,
> {
    if !ctx.made_by_contract() {
        Some(SagaError::Unauthorized)
    } else if before.balance + amount > u128::MAX || before.total_supply + amount > u128::MAX {
        Some(SagaError::ArithmeticOverflow)
    } else {
        None
    }
}

/// Completes an issuance whose swap went through, against what the ledger holds
/// for the depositor: the shares are minted first, and only where they can be
/// are the three fees paid out. Where the mint is refused nothing is minted and
/// no call is made. An issuance that is not waiting for its swap stays as it
/// is, and so does the ledger.
pub fn commit_issuance(ctx: &CallContext, saga: IssuanceSaga, before: ShareBalances) -> (done:
    Result<(IssuanceSaga, ShareBalances, Vec<Call>), SagaError>)
    ensures
        saga@.step != IssuanceStep::Swapped ==> (done matches Ok(d) && d.0@ == saga@ && d.1 == before
            && call_views(d.2@) == Seq::<CallView>::empty()),
        saga@.step == IssuanceStep::Swapped ==> match mint_refused(
            ctx,
            before,
            saga@.share_quantity,
        ) {
            Some(e) => done == Err::<(IssuanceSaga, ShareBalances, Vec<Call>), SagaError>(e),
            None => done matches Ok(d) && d.0@ == saga@.at(IssuanceStep::Committed, false)
                && d.1 == (ShareBalances {
                balance: (before.balance + saga@.share_quantity) as u128,
                total_supply: (before.total_supply + saga@.share_quantity) as u128,
            }) && call_views(d.2@) == saga@.committing(),
        },
{
    match saga.step {
        IssuanceStep::Swapped => {
            let after = match Contract::ft_mint(ctx, before, saga.share_quantity) {
                Ok(after) => after,
                Err(e) => { return Err(e); },
            };
            let (next, calls) = Contract::mint_index(saga, true);
            Ok((next, after, calls))
        },
        _ => {
            let calls: Vec<Call> = Vec::new();
            assert(call_views(calls@) =~= Seq::<CallView>::empty());
            Ok((saga, before, calls))
        },
    }
}

/// Takes the outcome of whichever call of an issuance is pending, against what
/// the ledger holds for the depositor. A swap that went through is completed as
/// `commit_issuance` does; every other outcome is taken as `advance` takes it and
/// leaves the ledger as it is.
pub fn settle_issuance(
    ctx: &CallContext,
    saga: IssuanceSaga,
    succeeded: bool,
    before: ShareBalances,
) -> (done: Result<(IssuanceSaga, ShareBalances, Vec<Call>), SagaError>)
    ensures
        !(saga@.step == IssuanceStep::Swapped && succeeded) ==> (done matches Ok(d) && (
            d.0@,
            call_views(d.2@),
        ) == saga@.settled(succeeded) && d.1 == before),
        saga@.step == IssuanceStep::Swapped && succeeded ==> match mint_refused(
            ctx,
            before,
            saga@.share_quantity,
        ) {
            Some(e) => done == Err::<(IssuanceSaga, ShareBalances, Vec<Call>), SagaError>(e),
            None => done matches Ok(d) && d.0@ == saga@.at(IssuanceStep::Committed, false)
                && d.1 == (ShareBalances {
                balance: (before.balance + saga@.share_quantity) as u128,
                total_supply: (before.total_supply + saga@.share_quantity) as u128,
            }) && call_views(d.2@) == saga@.committing(),
        },
{
    if succeeded {
        match saga.step {
            IssuanceStep::Swapped => { return commit_issuance(ctx, saga, before); },
            _ => {},
        }
    }
    let (next, calls) = saga.advance(succeeded);
    Ok((next, before, calls))
}

/// Begins to make good a swap that failed after the funds were forwarded: the
/// issuance has failed, and the forwarded amount is fetched back from the
/// venue. An issuance that is not waiting for its swap stays as it is.
pub fn recall_funds(saga: IssuanceSaga) -> (next: (IssuanceSaga, Vec<Call>))
    ensures
        (next.0@, call_views(next.1@)) == (if saga@.step == IssuanceStep::Swapped {
            (saga@.at(IssuanceStep::Failed, true), seq![saga@.recalling()])
        } else {
            (saga@, Seq::empty())
        }),
{
    let mut calls: Vec<Call> = Vec::new();
    match saga.step {
        IssuanceStep::Swapped => {
            calls.push(
                Call::Withdraw { asset: saga.base_asset.clone(), amount: saga.fees.net_amount },
            );
            assert(call_views(calls@) =~= seq![saga@.recalling()]);
            (IssuanceSaga { step: IssuanceStep::Failed, compensating: true, ..saga }, calls)
        },
        _ => {
            assert(call_views(calls@) =~= Seq::empty());
            (saga, calls)
        },
    }
}

/// Takes the outcome of fetching the forwarded amount back. Where it went
/// through, the amount is sent back to the depositor, marked as a refund.
/// Where it failed, the funds stay at the venue and nothing more is tried. An
/// issuance that is not fetching funds back stays as it is.
pub fn settle_recall(saga: IssuanceSaga, succeeded: bool) -> (next: (IssuanceSaga, Vec<Call>))
    ensures
        (next.0@, call_views(next.1@)) == (if saga@.step == IssuanceStep::Failed {
            saga@.settled(succeeded)
        } else {
            (saga@, Seq::empty())
        }),
{
    let mut calls: Vec<Call> = Vec::new();
    match saga.step {
        IssuanceStep::Failed => {
            if !saga.compensating {
                assert(call_views(calls@) =~= Seq::empty());
                (saga, calls)
            } else if succeeded {
                calls.push(pay(&saga, &saga.initiator, saga.fees.net_amount, Note::Refund));
                assert(call_views(calls@) =~= seq![saga@.refunding()]);
                (
                    IssuanceSaga { step: IssuanceStep::Compensated, compensating: false, ..saga },
                    calls,
                )
            } else {
                assert(call_views(calls@) =~= Seq::empty());
                (
                    IssuanceSaga {
                        step: IssuanceStep::CompensationFailed,
                        compensating: false,
                        ..saga
                    },
                    calls,
                )
            }
        },
        _ => {
            assert(call_views(calls@) =~= Seq::empty());
            (saga, calls)
        },
    }
}

} // verus!
