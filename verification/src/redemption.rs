//! Redemption: shares become the base asset again.
//!
//! What the shares stand for of each asset of the basket is swapped back into
//! the base asset at the venue, the proceeds are fetched from the venue, and
//! only then are the shares burned and the holder paid. One remote call is
//! pending at a time; where one fails, nothing was taken from the holder.

use crate::account::AccountId;
use crate::allocation::{entry_views, EntryView};
use crate::calls::{action_views, call_views, copy_actions, Action, ActionView, Call, CallView, Note};
use crate::contract::{CallContext, Contract, ContractView};
use crate::error::SagaError;
use crate::shares::{holding, holding_of, holding_overflows, ShareBalances};
use vstd::prelude::*;

verus! {

/// How far a redemption has come.
#[derive(Clone, Copy, Debug, PartialEq, Eq, Structural)]
pub enum RedemptionStep {
    /// The request is accepted and all amounts are computed. Nothing was sent.
    Initiated,
    /// The venue was asked to swap the assets back into the base asset.
    SwappedBack,
    /// The swap went through; the venue was asked to hand the proceeds over.
    Withdrawn,
    /// The proceeds are here; the shares are burned and the holder is paid.
    Committed,
    /// A call failed. The shares are untouched.
    Failed,
}

/// One redemption in flight. It holds copies of all that it needs of the
/// configuration, taken when it began.
#[derive(Debug)]
pub struct RedemptionSaga {
    /// Who redeems.
    pub holder: AccountId,
    /// The base asset.
    pub base_asset: AccountId,
    /// The shares to burn.
    pub share_quantity: u128,
    /// The amount of the base asset that the holder asked for.
    pub amount_to_return: u128,
    /// One swap for each asset of the basket, of what the shares stand for.
    pub swaps: Vec<Action>,
    /// How far it has come.
    pub step: RedemptionStep,
}

/// A redemption, with accounts named by their text.
pub struct RedemptionView {
    pub holder: Seq<char>,
    pub base_asset: Seq<char>,
    pub share_quantity: nat,
    pub amount_to_return: nat,
    pub swaps: Seq<ActionView>,
    pub step: RedemptionStep,
}

impl View for RedemptionSaga {
    type V = RedemptionView;

    open spec fn view(&self) -> RedemptionView {
        RedemptionView {
            holder: self.holder@,
            base_asset: self.base_asset@,
            share_quantity: self.share_quantity as nat,
            amount_to_return: self.amount_to_return as nat,
            swaps: action_views(self.swaps@),
            step: self.step,
        }
    }
}

impl RedemptionView {
    /// The same redemption at another step.
    pub open spec fn at(self, step: RedemptionStep) -> RedemptionView {
        RedemptionView { step, ..self }
    }

    /// No call is pending and none will be made.
    pub open spec fn is_over(self) -> bool {
        self.step == RedemptionStep::Committed || self.step == RedemptionStep::Failed
    }

    /// The call that swaps the assets back.
    pub open spec fn swapping(self) -> CallView {
        CallView::Swap { actions: self.swaps }
    }

    /// The call that fetches the proceeds from the venue.
    pub open spec fn withdrawing(self) -> CallView {
        CallView::Withdraw { asset: self.base_asset, amount: self.amount_to_return }
    }

    /// The calls of a completed redemption: the shares are burned first, then
    /// the holder is paid.
    pub open spec fn committing(self) -> Seq<CallView> {
        seq![
            CallView::Burn { account: self.holder, amount: self.share_quantity },
            CallView::Transfer {
                asset: self.base_asset,
                to: self.holder,
                amount: self.amount_to_return,
                memo: Note::Blank,
            },
        ]
    }

    /// Where the redemption stands once its pending call has ended, and the calls
    /// to make then. A redemption that is over, or has not sent anything yet,
    /// stays as it is.
    pub open spec fn settled(self, succeeded: bool) -> (RedemptionView, Seq<CallView>) {
        match self.step {
            RedemptionStep::SwappedBack => if succeeded {
                (self.at(RedemptionStep::Withdrawn), seq![self.withdrawing()])
            } else {
                (self.at(RedemptionStep::Failed), Seq::empty())
            },
            RedemptionStep::Withdrawn => if succeeded {
                (self.at(RedemptionStep::Committed), self.committing())
            } else {
                (self.at(RedemptionStep::Failed), Seq::empty())
            },
            _ => (self, Seq::empty()),
        }
    }
}

/// The swaps of a redemption: for each entry of the basket, in order, what
/// `shares` stand for of the entry's asset goes into the base asset through the
/// entry's pool, and the venue must give at least one unit. One whole share
/// stands for the entry's weight of its asset.
pub open spec fn redemption_swaps(
    entries: Seq<EntryView>,
    base: Seq<char>,
    shares: nat,
    decimals: u8,
) -> Seq<ActionView> {
    Seq::new(
        entries.len(),
        |i: int|
            ActionView {
                pool_id: entries[i].venue_route,
                token_in: entries[i].asset_id,
                amount_in: holding_of(shares, entries[i].target_weight as nat, decimals),
                token_out: base,
                min_amount_out: 1,
            },
    )
}

/// Whether what the shares stand for of some asset does not fit in 128 bits.
pub open spec fn redemption_overflows(entries: Seq<EntryView>, shares: nat, decimals: u8) -> bool {
    exists|i: int|
        0 <= i < entries.len() && holding_overflows(
            shares,
            (#[trigger] entries[i]).target_weight as nat,
            decimals,
        )
}

/// Why a redemption of `shares` by a holder of `balance` shares is refused, if it
/// is: the holder has too few, or an amount does not fit in 128 bits.
pub open spec fn redemption_refused(contract: ContractView, balance: nat, shares: nat) -> Option<
    SagaError,
> {
    if balance < shares {
        Some(SagaError::InsufficientShares)
    } else if redemption_overflows(contract.allocation, shares, contract.decimals) {
        Some(SagaError::ArithmeticOverflow)
    } else {
        None
    }
}

/// The redemption that a request by `holder` begins.
pub open spec fn redemption_of(
    contract: ContractView,
    holder: Seq<char>,
    shares: nat,
    amount_to_return: nat,
) -> RedemptionView {
    RedemptionView {
        holder,
        base_asset: contract.input_token,
        share_quantity: shares,
        amount_to_return,
        swaps: redemption_swaps(contract.allocation, contract.input_token, shares, contract.decimals),
        step: RedemptionStep::Initiated,
    }
}

impl RedemptionSaga {
    /// Accepts the request of `holder`, who holds `balance` shares, to redeem
    /// `share_quantity` of them for `amount_to_return` of the base asset: checks
    /// the balance, copies what it needs of the configuration, and computes what
    /// to swap back. Nothing is sent yet.
    pub fn initiate(
        contract: &Contract,
        holder: &AccountId,
        balance: u128,
        share_quantity: u128,
        amount_to_return: u128,
    ) -> (saga: Result<RedemptionSaga, SagaError>)
        ensures
            match redemption_refused(contract@, balance as nat, share_quantity as nat) {
                Some(e) => saga == Err::<RedemptionSaga, SagaError>(e),
                None => saga matches Ok(s) && s@ == redemption_of(
                    contract@,
                    holder@,
                    share_quantity as nat,
                    amount_to_return as nat,
                ),
            },
    {
        if balance < share_quantity {
            return Err(SagaError::InsufficientShares);
        }
        let basket = contract.ft_token_allocation();
        let decimals = contract.decimals();
        let base = contract.input_token();
        let ghost entries = entry_views(basket@);
        let ghost shares = share_quantity as nat;
        let mut swaps: Vec<Action> = Vec::new();
        let mut i: usize = 0;
        while i < basket.len()
            invariant
                i <= basket.len(),
                entries == entry_views(basket@),
                entries == contract@.allocation,
                decimals == contract@.decimals,
                base@ == contract@.input_token,
                shares == share_quantity as nat,
                balance >= share_quantity,
                swaps.len() == i,
                forall|k: int|
                    0 <= k < i ==> !holding_overflows(
                        shares,
                        (#[trigger] entries[k]).target_weight as nat,
                        decimals,
                    ),
                forall|k: int|
                    0 <= k < i ==> (#[trigger] swaps[k])@ == redemption_swaps(
                        entries,
                        base@,
                        shares,
                        decimals,
                    )[k],
            decreases basket.len() - i,
        {
            assert(entries[i as int] == basket[i as int]@);
            let amount_in = match holding(share_quantity, basket[i].target_weight, decimals) {
                Ok(amount_in) => amount_in,
                Err(e) => {
                    assert(holding_overflows(
                        shares,
                        entries[i as int].target_weight as nat,
                        decimals,
                    ));
                    return Err(e);
                },
            };
            swaps.push(
                Action {
                    pool_id: basket[i].venue_route,
                    token_in: basket[i].asset_id.clone(),
                    amount_in,
                    token_out: base.clone(),
                    min_amount_out: 1,
                },
            );
            i += 1;
        }
        assert(action_views(swaps@) =~= redemption_swaps(entries, base@, shares, decimals));
        Ok(
            RedemptionSaga {
                holder: holder.clone(),
                base_asset: base.clone(),
                share_quantity,
                amount_to_return,
                swaps,
                step: RedemptionStep::Initiated,
            },
        )
    }

    /// Asks the venue to swap the assets of a freshly accepted redemption back
    /// into the base asset. A redemption at any other step stays as it is and
    /// sends nothing.
    pub fn swap_back(self) -> (next: (RedemptionSaga, Vec<Call>))
        ensures
            (next.0@, call_views(next.1@)) == (if self@.step == RedemptionStep::Initiated {
                (self@.at(RedemptionStep::SwappedBack), seq![self@.swapping()])
            } else {
                (self@, Seq::empty())
            }),
    {
        let mut calls: Vec<Call> = Vec::new();
        match self.step {
            RedemptionStep::Initiated => {
                calls.push(Call::Swap { actions: copy_actions(&self.swaps) });
                assert(call_views(calls@) =~= seq![self@.swapping()]);
                (RedemptionSaga { step: RedemptionStep::SwappedBack, ..self }, calls)
            },
            _ => {
                assert(call_views(calls@) =~= Seq::empty());
                (self, calls)
            },
        }
    }

    /// Takes the outcome of whichever call is pending and says where the
    /// redemption stands then and which calls to make.
    pub fn advance(self, succeeded: bool) -> (next: (RedemptionSaga, Vec<Call>))
        ensures
            (next.0@, call_views(next.1@)) == self@.settled(succeeded),
    {
        match self.step {
            RedemptionStep::SwappedBack => Contract::call_withdraw_for(self, succeeded),
            RedemptionStep::Withdrawn => Contract::burn_index(self, succeeded),
            _ => {
                let calls: Vec<Call> = Vec::new();
                assert(call_views(calls@) =~= Seq::empty());
                (self, calls)
            },
        }
    }

    /// Whether the redemption is over: no call is pending and none will be made.
    pub fn is_over(&self) -> (over: bool)
        ensures
            over == self@.is_over(),
    {
        match self.step {
            RedemptionStep::Committed | RedemptionStep::Failed => true,
            _ => false,
        }
    }

    /// What went wrong, if anything did.
    pub fn failure(&self) -> (error: Option<SagaError>)
        ensures
            error == (if self@.step == RedemptionStep::Failed {
                Some(SagaError::VenueCallFailed)
            } else {
                None
            }),
    {
        match self.step {
            RedemptionStep::Failed => Some(SagaError::VenueCallFailed),
            _ => None,
        }
    }
}

impl Contract {
    /// Begins a redemption for the signer of the call, who holds `balance`
    /// shares, and asks the venue to swap the assets back. A request for more
    /// shares than the signer holds, or one whose amounts do not fit, is refused
    /// and nothing is sent.
    pub fn sell_token(
        &self,
        ctx: &CallContext,
        balance: u128,
        index_token: u128,
        amount_to_return: u128,
    ) -> (started: Result<(RedemptionSaga, Vec<Call>), SagaError>)
        ensures
            match redemption_refused(self@, balance as nat, index_token as nat) {
                Some(e) => started == Err::<(RedemptionSaga, Vec<Call>), SagaError>(e),
                None => started matches Ok(s) && s.0@ == redemption_of(
                    self@,
                    ctx.signer_account_id@,
                    index_token as nat,
                    amount_to_return as nat,
                ).at(RedemptionStep::SwappedBack) && call_views(s.1@) == seq![
                    redemption_of(
                        self@,
                        ctx.signer_account_id@,
                        index_token as nat,
                        amount_to_return as nat,
                    ).swapping(),
                ],
            },
    {
        match RedemptionSaga::initiate(
            self,
            &ctx.signer_account_id,
            balance,
            index_token,
            amount_to_return,
        ) {
            Ok(saga) => Ok(saga.swap_back()),
            Err(e) => Err(e),
        }
    }

    /// Takes the outcome of the swap back. Where it went through, the venue is
    /// asked to hand over the amount that the holder asked for; where it failed,
    /// the redemption has failed. A redemption that is not waiting for its swap
    /// stays as it is.
    pub fn call_withdraw_for(saga: RedemptionSaga, succeeded: bool) -> (next: (
        RedemptionSaga,
        Vec<Call>,
    ))
        ensures
            (next.0@, call_views(next.1@)) == (if saga@.step == RedemptionStep::SwappedBack {
                saga@.settled(succeeded)
            } else {
                (saga@, Seq::empty())
            }),
    {
        let mut calls: Vec<Call> = Vec::new();
        match saga.step {
            RedemptionStep::SwappedBack => {
                if succeeded {
                    calls.push(
                        Call::Withdraw {
                            asset: saga.base_asset.clone(),
                            amount: saga.amount_to_return,
                        },
                    );
                    assert(call_views(calls@) =~= seq![saga@.withdrawing()]);
                    (RedemptionSaga { step: RedemptionStep::Withdrawn, ..saga }, calls)
                } else {
                    assert(call_views(calls@) =~= Seq::empty());
                    (RedemptionSaga { step: RedemptionStep::Failed, ..saga }, calls)
                }
            },
            _ => {
                assert(call_views(calls@) =~= Seq::empty());
                (saga, calls)
            },
        }
    }

    /// Takes the outcome of fetching the proceeds. Where it went through, the
    /// shares are burned and then the holder is paid the amount asked for, and
    /// the redemption is complete. Where it failed, neither happens and the
    /// redemption has failed. A redemption that is not waiting for the proceeds
    /// stays as it is.
    pub fn burn_index(saga: RedemptionSaga, succeeded: bool) -> (next: (RedemptionSaga, Vec<Call>))
        ensures
            (next.0@, call_views(next.1@)) == (if saga@.step == RedemptionStep::Withdrawn {
                saga@.settled(succeeded)
            } else {
                (saga@, Seq::empty())
            }),
    {
        let mut calls: Vec<Call> = Vec::new();
        match saga.step {
            RedemptionStep::Withdrawn => {
                if succeeded {
                    calls.push(
                        Call::Burn { account: saga.holder.clone(), amount: saga.share_quantity },
                    );
                    calls.push(
                        Call::Transfer {
                            asset: saga.base_asset.clone(),
                            to: saga.holder.clone(),
                            amount: saga.amount_to_return,
                            memo: Note::Blank,
                        },
                    );
                    assert(call_views(calls@) =~= saga@.committing());
                    (RedemptionSaga { step: RedemptionStep::Committed, ..saga }, calls)
                } else {
                    assert(call_views(calls@) =~= Seq::empty());
                    (RedemptionSaga { step: RedemptionStep::Failed, ..saga }, calls)
                }
            },
            _ => {
                assert(call_views(calls@) =~= Seq::empty());
                (saga, calls)
            },
        }
    }
}

/// Why shares cannot be burned out of what the ledger holds, if they cannot: the
/// call does not come from the contract itself, or the account or the ledger
/// holds fewer.
pub open spec fn burn_refused(ctx: &CallContext, before: ShareBalances, amount: nat) -> Option<
    SagaError,
> {
    if !ctx.made_by_contract() {
        Some(SagaError::Unauthorized)
    } else if amount > before.balance || amount > before.total_supply {
        Some(SagaError::InsufficientBalance)
    } else {
        None
    }
}

/// Completes a redemption whose proceeds were fetched, against what the ledger
/// holds for the holder: the shares are burned first, and only where they can
/// be is the holder paid. Where the burn is refused nothing is burned and no
/// call is made. A redemption that is not waiting for its proceeds stays as it
/// is, and so does the ledger.
pub fn commit_redemption(ctx: &CallContext, saga: RedemptionSaga, before: ShareBalances) -> (done:
    Result<(RedemptionSaga, ShareBalances, Vec<Call>), SagaError>)
    ensures
        saga@.step != RedemptionStep::Withdrawn ==> (done matches Ok(d) && d.0@ == saga@ && d.1 == before
            && call_views(d.2@) == Seq::<CallView>::empty()),
        saga@.step == RedemptionStep::Withdrawn ==> match burn_refused(
            ctx,
            before,
            saga@.share_quantity,
        ) {
            Some(e) => done == Err::<(RedemptionSaga, ShareBalances, Vec<Call>), SagaError>(e),
            None => done matches Ok(d) && d.0@ == saga@.at(RedemptionStep::Committed) && d.1
                == (ShareBalances {
                balance: (before.balance - saga@.share_quantity) as u128,
                total_supply: (before.total_supply - saga@.share_quantity) as u128,
            }) && call_views(d.2@) == saga@.committing(),
        },
{
    match saga.step {
        RedemptionStep::Withdrawn => {
            let after = match Contract::ft_burn(ctx, before, saga.share_quantity) {
                Ok(after) => after,
                Err(e) => { return Err(e); },
            };
            let (next, calls) = Contract::burn_index(saga, true);
            Ok((next, after, calls))
        },
        _ => {
            let calls: Vec<Call> = Vec::new();
            assert(call_views(calls@) =~= Seq::<CallView>::empty());
            Ok((saga, before, calls))
        },
    }
}

/// Takes the outcome of whichever call of a redemption is pending, against what
/// the ledger holds for the holder. Proceeds that were fetched complete the
/// redemption as `commit_redemption` does; every other outcome is taken as
/// `advance` takes it and leaves the ledger as it is.
pub fn settle_redemption(
    ctx: &CallContext,
    saga: RedemptionSaga,
    succeeded: bool,
    before: ShareBalances,
) -> (done: Result<(RedemptionSaga, ShareBalances, Vec<Call>), SagaError>)
    ensures
        !(saga@.step == RedemptionStep::Withdrawn && succeeded) ==> (done matches Ok(d) && (
            d.0@,
            call_views(d.2@),
        ) == saga@.settled(succeeded) && d.1 == before),
        saga@.step == RedemptionStep::Withdrawn && succeeded ==> match burn_refused(
            ctx,
            before,
            saga@.share_quantity,
        ) {
            Some(e) => done == Err::<(RedemptionSaga, ShareBalances, Vec<Call>), SagaError>(e),
            None => done matches Ok(d) && d.0@ == saga@.at(RedemptionStep::Committed) && d.1
                == (ShareBalances {
                balance: (before.balance - saga@.share_quantity) as u128,
                total_supply: (before.total_supply - saga@.share_quantity) as u128,
            }) && call_views(d.2@) == saga@.committing(),
        },
{
    if succeeded {
        match saga.step {
            RedemptionStep::Withdrawn => { return commit_redemption(ctx, saga, before); },
            _ => {},
        }
    }
    let (next, calls) = saga.advance(succeeded);
    Ok((next, before, calls))
}

} // verus!
