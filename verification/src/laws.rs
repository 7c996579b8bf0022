//! What holds of every issuance and every redemption, whatever their calls
//! come to.

use crate::allocation::EntryView;
use crate::calls::{mints_shares, ActionView, CallView};
use crate::contract::ContractView;
use crate::fees::{
    fees_overflow, lemma_fees_within_gross, lemma_split_within_net, portions_total, rates_valid,
    split_with, total_weight,
};
use crate::issuance::{
    issuance_of, issuance_refused, net_of, swaps_with, IssuanceStep, IssuanceView,
};
use crate::redemption::{redemption_of, redemption_refused, RedemptionStep, RedemptionView};
use vstd::prelude::*;

verus! {

/// Where an issuance stands after the outcomes of its calls, one after the
/// other, and all the calls that it asked for on the way.
pub open spec fn issuance_run(saga: IssuanceView, outcomes: Seq<bool>) -> (IssuanceView, Seq<CallView>)
    decreases outcomes.len(),
{
    if outcomes.len() == 0 {
        (saga, Seq::empty())
    } else {
        let first = saga.settled(outcomes[0]);
        let rest = issuance_run(first.0, outcomes.drop_first());
        (rest.0, first.1 + rest.1)
    }
}

/// Where a redemption stands after the outcomes of its calls, one after the
/// other, and all the calls that it asked for on the way.
pub open spec fn redemption_run(saga: RedemptionView, outcomes: Seq<bool>) -> (
    RedemptionView,
    Seq<CallView>,
)
    decreases outcomes.len(),
{
    if outcomes.len() == 0 {
        (saga, Seq::empty())
    } else {
        let first = saga.settled(outcomes[0]);
        let rest = redemption_run(first.0, outcomes.drop_first());
        (rest.0, first.1 + rest.1)
    }
}

/// Whether one of the calls destroys shares.
pub open spec fn burns_shares(calls: Seq<CallView>) -> bool {
    exists|i: int| 0 <= i < calls.len() && (#[trigger] calls[i]) is Burn
}

/// What the swaps give to the venue, summed.
pub open spec fn swaps_total(swaps: Seq<ActionView>) -> nat
    decreases swaps.len(),
{
    if swaps.len() == 0 {
        0
    } else {
        swaps_total(swaps.drop_last()) + swaps.last().amount_in
    }
}

proof fn lemma_swaps_spend_the_split(entries: Seq<EntryView>, base: Seq<char>, net: nat, total: nat)
    ensures
        swaps_total(swaps_with(entries, base, net, total)) == portions_total(
            split_with(entries, net, total),
        ),
    decreases entries.len(),
{
    if entries.len() > 0 {
        let rest = entries.drop_last();
        lemma_swaps_spend_the_split(rest, base, net, total);
        assert(swaps_with(entries, base, net, total).drop_last() =~= swaps_with(
            rest,
            base,
            net,
            total,
        ));
        assert(split_with(entries, net, total).drop_last() =~= split_with(rest, net, total));
    }
}

/// Nothing of a deposit is lost or made up: the three fees and the net amount
/// add up to the deposit, and the swaps give the venue no more than the net
/// amount that was forwarded to it.
pub proof fn lemma_deposit_is_accounted_for(contract: ContractView, initiator: Seq<char>, gross: nat)
    requires
        rates_valid(contract.fees),
        !fees_overflow(contract.fees, gross),
        gross <= u128::MAX,
    ensures
        ({
            let saga = issuance_of(contract, initiator, gross);
            &&& saga.fees.manager_fee + saga.fees.platform_fee + saga.fees.distributor_fee
                + saga.fees.net_amount == gross
            &&& saga.forwarding()->TransferAndNotify_amount == saga.fees.net_amount
            &&& swaps_total(saga.swaps) <= saga.fees.net_amount
        }),
{
    lemma_fees_within_gross(contract.fees, gross);
    let net = net_of(contract, gross);
    lemma_swaps_spend_the_split(
        contract.allocation,
        contract.input_token,
        net,
        total_weight(contract.allocation),
    );
    lemma_split_within_net(contract.allocation, net);
}

/// While an issuance goes on, exactly one call is pending: a transition that
/// does not end the issuance asks for one call and no more.
pub proof fn lemma_one_call_pending(saga: IssuanceView, succeeded: bool)
    requires
        saga.step != IssuanceStep::Initiated,
    ensures
        !saga.settled(succeeded).0.is_over() ==> saga.settled(succeeded).1.len() == 1,
{
}

/// While a redemption goes on, exactly one call is pending.
pub proof fn lemma_one_call_pending_back(saga: RedemptionView, succeeded: bool)
    requires
        saga.step != RedemptionStep::Initiated,
    ensures
        !saga.settled(succeeded).0.is_over() ==> saga.settled(succeeded).1.len() == 1,
{
}

/// Shares are minted by one transition only: the one that takes a swap that went
/// through. It completes the issuance.
pub proof fn lemma_mint_completes(saga: IssuanceView, succeeded: bool)
    ensures
        mints_shares(saga.settled(succeeded).1) <==> saga.step == IssuanceStep::Swapped
            && succeeded,
        mints_shares(saga.settled(succeeded).1) ==> saga.settled(succeeded).0.step
            == IssuanceStep::Committed && saga.settled(succeeded).0.is_over(),
{
    let calls = saga.settled(succeeded).1;
    if saga.step == IssuanceStep::Swapped && succeeded {
        assert(calls[0] is Mint);
    } else {
        assert forall|i: int| 0 <= i < calls.len() implies !(#[trigger] calls[i] is Mint) by {}
    }
}

/// An issuance that is over stays as it is and asks for no further call,
/// whatever is reported to it. So nothing is minted, paid or refunded twice.
pub proof fn lemma_over_is_final(saga: IssuanceView, outcomes: Seq<bool>)
    requires
        saga.is_over(),
    ensures
        issuance_run(saga, outcomes) == (saga, Seq::<CallView>::empty()),
    decreases outcomes.len(),
{
    if outcomes.len() > 0 {
        lemma_over_is_final(saga, outcomes.drop_first());
        assert(Seq::<CallView>::empty() + Seq::<CallView>::empty() =~= Seq::<CallView>::empty());
    }
}

/// A redemption that is over stays as it is and asks for no further call,
/// whatever is reported to it. So nothing is burned or paid twice, and a failed
/// redemption is not tried again.
pub proof fn lemma_over_is_final_back(saga: RedemptionView, outcomes: Seq<bool>)
    requires
        saga.is_over(),
    ensures
        redemption_run(saga, outcomes) == (saga, Seq::<CallView>::empty()),
    decreases outcomes.len(),
{
    if outcomes.len() > 0 {
        lemma_over_is_final_back(saga, outcomes.drop_first());
        assert(Seq::<CallView>::empty() + Seq::<CallView>::empty() =~= Seq::<CallView>::empty());
    }
}

/// A swap that fails after the funds were forwarded is made good: the issuance
/// has failed, exactly the forwarded amount is fetched back from the venue and
/// sent to the depositor as a refund, and no share is minted.
pub proof fn lemma_failed_swap_is_refunded(saga: IssuanceView)
    requires
        saga.step == IssuanceStep::FundsForwarded,
    ensures
        issuance_run(saga, seq![true, false]).0.step == IssuanceStep::Failed,
        issuance_run(saga, seq![true, false, true]).0.step == IssuanceStep::Compensated,
        issuance_run(saga, seq![true, false, true]).1 == seq![
            saga.swapping(),
            saga.recalling(),
            saga.refunding(),
        ],
        saga.refunding() == (CallView::Transfer {
            asset: saga.base_asset,
            to: saga.initiator,
            amount: saga.forwarding()->TransferAndNotify_amount,
            memo: crate::calls::Note::Refund,
        }),
        !mints_shares(issuance_run(saga, seq![true, false, true]).1),
{
    let swapped = saga.settled(true).0;
    let failed = swapped.settled(false).0;
    let compensated = failed.settled(true).0;
    let two = seq![true, false];
    let three = seq![true, false, true];
    assert(two.drop_first() =~= seq![false]);
    assert(seq![false].drop_first() =~= Seq::<bool>::empty());
    assert(three.drop_first() =~= seq![false, true]);
    assert(seq![false, true].drop_first() =~= seq![true]);
    assert(seq![true].drop_first() =~= Seq::<bool>::empty());
    assert(issuance_run(failed, Seq::<bool>::empty()) == (failed, Seq::<CallView>::empty()));
    assert(issuance_run(compensated, Seq::<bool>::empty()) == (
        compensated,
        Seq::<CallView>::empty(),
    ));
    assert(issuance_run(swapped, seq![false]).0 == failed);
    assert(issuance_run(saga, two).0 == failed);
    assert(issuance_run(failed, seq![true]).1 =~= seq![saga.refunding()]);
    assert(issuance_run(swapped, seq![false, true]).1 =~= seq![saga.recalling(), saga.refunding()]);
    let calls = issuance_run(saga, three).1;
    assert(calls =~= seq![saga.swapping(), saga.recalling(), saga.refunding()]);
    assert forall|i: int| 0 <= i < calls.len() implies !(#[trigger] calls[i] is Mint) by {}
}

/// Where the forwarded funds cannot be fetched back, the issuance says so and
/// stops: nothing is refunded and no share is minted.
pub proof fn lemma_stranded_funds_surface(saga: IssuanceView)
    requires
        saga.step == IssuanceStep::Swapped,
    ensures
        issuance_run(saga, seq![false, false]).0.step == IssuanceStep::CompensationFailed,
        issuance_run(saga, seq![false, false]).1 == seq![saga.recalling()],
        issuance_run(saga, seq![false, false]).0.is_over(),
{
    let failed = saga.settled(false).0;
    let stranded = failed.settled(false).0;
    assert(seq![false, false].drop_first() =~= seq![false]);
    assert(seq![false].drop_first() =~= Seq::<bool>::empty());
    assert(issuance_run(stranded, Seq::<bool>::empty()) == (stranded, Seq::<CallView>::empty()));
    assert(issuance_run(failed, seq![false]).1 =~= Seq::<CallView>::empty());
    assert(issuance_run(saga, seq![false, false]).1 =~= seq![saga.recalling()]);
}

/// Shares are burned, and the holder is paid, by one transition only: the one
/// that takes a withdrawal that went through. A redemption that fails leaves
/// the shares as they were.
pub proof fn lemma_burn_completes(saga: RedemptionView, succeeded: bool)
    ensures
        burns_shares(saga.settled(succeeded).1) <==> saga.step == RedemptionStep::Withdrawn
            && succeeded,
        saga.settled(succeeded).0.step == RedemptionStep::Failed && saga.step
            != RedemptionStep::Failed ==> saga.settled(succeeded).1.len() == 0,
{
    let calls = saga.settled(succeeded).1;
    if saga.step == RedemptionStep::Withdrawn && succeeded {
        assert(calls[0] is Burn);
    } else {
        assert forall|i: int| 0 <= i < calls.len() implies !(#[trigger] calls[i] is Burn) by {}
    }
}

/// Shares redeemed straight after they were issued return no more of the base
/// asset than the net amount that was forwarded for them, where no more was
/// asked for: a redemption that goes through pays the holder once, and exactly
/// the amount asked for.
pub proof fn lemma_round_trip_returns_no_more(
    contract: ContractView,
    holder: Seq<char>,
    gross: nat,
    amount_to_return: nat,
)
    requires
        issuance_refused(contract, gross) is None,
        redemption_refused(
            contract,
            issuance_of(contract, holder, gross).share_quantity,
            issuance_of(contract, holder, gross).share_quantity,
        ) is None,
        amount_to_return <= net_of(contract, gross),
    ensures
        ({
            let shares = issuance_of(contract, holder, gross).share_quantity;
            let redemption = redemption_of(contract, holder, shares, amount_to_return).at(
                RedemptionStep::SwappedBack,
            );
            let end = redemption_run(redemption, seq![true, true]);
            &&& end.0.step == RedemptionStep::Committed
            &&& end.1 == seq![
                redemption.withdrawing(),
                CallView::Burn { account: holder, amount: shares },
                CallView::Transfer {
                    asset: contract.input_token,
                    to: holder,
                    amount: amount_to_return,
                    memo: crate::calls::Note::Blank,
                },
            ]
            &&& amount_to_return <= issuance_of(contract, holder, gross).forwarding()->TransferAndNotify_amount
        }),
{
    let shares = issuance_of(contract, holder, gross).share_quantity;
    let redemption = redemption_of(contract, holder, shares, amount_to_return).at(
        RedemptionStep::SwappedBack,
    );
    let withdrawn = redemption.settled(true).0;
    let committed = withdrawn.settled(true).0;
    assert(seq![true, true].drop_first() =~= seq![true]);
    assert(seq![true].drop_first() =~= Seq::<bool>::empty());
    assert(redemption_run(committed, Seq::<bool>::empty()) == (
        committed,
        Seq::<CallView>::empty(),
    ));
    assert(redemption_run(withdrawn, seq![true]).1 =~= withdrawn.committing());
    assert(redemption_run(redemption, seq![true, true]).1 =~= seq![
        redemption.withdrawing(),
        CallView::Burn { account: holder, amount: shares },
        CallView::Transfer {
            asset: contract.input_token,
            to: holder,
            amount: amount_to_return,
            memo: crate::calls::Note::Blank,
        },
    ]);
}

} // verus!
