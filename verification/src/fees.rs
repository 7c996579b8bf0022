//! Fees in basis points and the net amount that is left to invest.

use crate::account::AccountId;
use crate::allocation::{entry_views, AllocationEntry, EntryView};
use crate::error::SagaError;
use vstd::prelude::*;

verus! {

/// One whole, in basis points.
pub const BASIS_POINTS: u128 = 10000;

/// The three fee rates as numbers, in basis points.
pub struct FeeRates {
    pub manager_bp: nat,
    pub platform_bp: nat,
    pub distributor_bp: nat,
}

/// Rates that leave something to invest: together they stay below one whole.
pub open spec fn rates_valid(rates: FeeRates) -> bool {
    rates.manager_bp + rates.platform_bp + rates.distributor_bp < 10000
}

/// The fee that a rate takes of a gross amount, rounded down.
pub open spec fn fee_of(rate_bp: nat, gross: nat) -> nat {
    rate_bp * gross / 10000
}

/// The sum of the three fees on a gross amount.
pub open spec fn total_fees(rates: FeeRates, gross: nat) -> nat {
    fee_of(rates.manager_bp, gross) + fee_of(rates.platform_bp, gross) + fee_of(
        rates.distributor_bp,
        gross,
    )
}

/// Whether one of the three products of rate and gross amount leaves 128 bits.
pub open spec fn fees_overflow(rates: FeeRates, gross: nat) -> bool {
    ||| rates.manager_bp * gross > u128::MAX
    ||| rates.platform_bp * gross > u128::MAX
    ||| rates.distributor_bp * gross > u128::MAX
}

/// The fee rates of manager, platform and distributor.
#[derive(Clone, Copy, Debug, PartialEq, Eq)]
pub struct FeeSchedule {
    manager_bp: u128,
    platform_bp: u128,
    distributor_bp: u128,
}

impl View for FeeSchedule {
    type V = FeeRates;

    closed spec fn view(&self) -> FeeRates {
        FeeRates {
            manager_bp: self.manager_bp as nat,
            platform_bp: self.platform_bp as nat,
            distributor_bp: self.distributor_bp as nat,
        }
    }
}

impl FeeSchedule {
    #[verifier::type_invariant]
    spec fn below_one_whole(self) -> bool {
        self.manager_bp + self.platform_bp + self.distributor_bp < 10000
    }

    /// A schedule of the three rates, if together they stay below one whole.
    pub fn new(manager_bp: u128, platform_bp: u128, distributor_bp: u128) -> (schedule: Option<
        FeeSchedule,
    >)
        ensures
            schedule.is_some() == (manager_bp + platform_bp + distributor_bp < 10000),
            schedule matches Some(s) ==> s@ == (FeeRates {
                manager_bp: manager_bp as nat,
                platform_bp: platform_bp as nat,
                distributor_bp: distributor_bp as nat,
            }),
    {
        if manager_bp < BASIS_POINTS && platform_bp < BASIS_POINTS && distributor_bp < BASIS_POINTS
            && manager_bp + platform_bp + distributor_bp < BASIS_POINTS {
            Some(FeeSchedule { manager_bp, platform_bp, distributor_bp })
        } else {
            None
        }
    }

    /// The manager's rate.
    pub fn manager_bp(&self) -> (rate: u128)
        ensures
            rate == self@.manager_bp,
            rates_valid(self@),
    {
        proof {
            use_type_invariant(self);
        }
        self.manager_bp
    }

    /// The platform's rate.
    pub fn platform_bp(&self) -> (rate: u128)
        ensures
            rate == self@.platform_bp,
            rates_valid(self@),
    {
        proof {
            use_type_invariant(self);
        }
        self.platform_bp
    }

    /// The distributor's rate.
    pub fn distributor_bp(&self) -> (rate: u128)
        ensures
            rate == self@.distributor_bp,
            rates_valid(self@),
    {
        proof {
            use_type_invariant(self);
        }
        self.distributor_bp
    }
}

/// What a deposit pays in fees and what is left of it.
#[derive(Clone, Copy, Debug, PartialEq, Eq, Structural)]
pub struct FeeBreakdown {
    pub manager_fee: u128,
    pub platform_fee: u128,
    pub distributor_fee: u128,
    pub net_amount: u128,
}

/// The fees of `rates` on `gross` and what they leave of it.
pub open spec fn fees_on(rates: FeeRates, gross: nat) -> FeeBreakdown {
    FeeBreakdown {
        manager_fee: fee_of(rates.manager_bp, gross) as u128,
        platform_fee: fee_of(rates.platform_bp, gross) as u128,
        distributor_fee: fee_of(rates.distributor_bp, gross) as u128,
        net_amount: (gross - total_fees(rates, gross)) as u128,
    }
}

/// Fees never eat the whole deposit: under valid rates their sum stays within the
/// gross amount, and below it where the gross amount is positive.
pub proof fn lemma_fees_within_gross(rates: FeeRates, gross: nat)
    requires
        rates_valid(rates),
    ensures
        total_fees(rates, gross) <= gross,
        gross > 0 ==> total_fees(rates, gross) < gross,
{
    let (m, p, d) = (rates.manager_bp, rates.platform_bp, rates.distributor_bp);
    assert(m * gross + p * gross + d * gross <= 9999 * gross) by (nonlinear_arith)
        requires
            m + p + d <= 9999,
    ;
}

/// Computes the three fees on `gross_amount` and the net amount that remains.
/// Each fee is its rate times the gross amount over ten thousand, rounded down.
/// The products are taken in 128 bits; where one does not fit, nothing is computed.
pub fn compute_fees(gross_amount: u128, schedule: &FeeSchedule) -> (fees: Result<
    FeeBreakdown,
    SagaError,
>)
    ensures
        fees is Err <==> fees_overflow(schedule@, gross_amount as nat),
        fees matches Err(e) ==> e == SagaError::ArithmeticOverflow,
        fees matches Ok(b) ==> b == fees_on(schedule@, gross_amount as nat),
        fees matches Ok(b) ==> b.manager_fee + b.platform_fee + b.distributor_fee
            <= gross_amount,
        fees matches Ok(b) ==> b.net_amount == gross_amount - (b.manager_fee + b.platform_fee
            + b.distributor_fee),
        fees matches Ok(b) ==> (gross_amount > 0 ==> b.net_amount > 0),
{
    proof {
        use_type_invariant(schedule);
        lemma_fees_within_gross(schedule@, gross_amount as nat);
    }
    let manager_fee = match schedule.manager_bp.checked_mul(gross_amount) {
        Some(product) => product / BASIS_POINTS,
        None => { return Err(SagaError::ArithmeticOverflow); },
    };
    let platform_fee = match schedule.platform_bp.checked_mul(gross_amount) {
        Some(product) => product / BASIS_POINTS,
        None => { return Err(SagaError::ArithmeticOverflow); },
    };
    let distributor_fee = match schedule.distributor_bp.checked_mul(gross_amount) {
        Some(product) => product / BASIS_POINTS,
        None => { return Err(SagaError::ArithmeticOverflow); },
    };
    let deducted = manager_fee + platform_fee + distributor_fee;
    Ok(FeeBreakdown { manager_fee, platform_fee, distributor_fee, net_amount: gross_amount - deducted })
}

/// The part of the net amount that goes into one asset.
#[derive(Debug, PartialEq, Eq)]
pub struct Portion {
    pub asset_id: AccountId,
    pub amount: u128,
}

/// A portion, with the asset named by its text.
pub struct PortionView {
    pub asset_id: Seq<char>,
    pub amount: nat,
}

impl View for Portion {
    type V = PortionView;

    open spec fn view(&self) -> PortionView {
        PortionView { asset_id: self.asset_id@, amount: self.amount as nat }
    }
}

/// The portions of a list, each by its view.
pub open spec fn portion_views(portions: Seq<Portion>) -> Seq<PortionView> {
    portions.map_values(|p: Portion| p@)
}

/// The weights of the entries, summed.
pub open spec fn total_weight(entries: Seq<EntryView>) -> nat
    decreases entries.len(),
{
    if entries.len() == 0 {
        0
    } else {
        total_weight(entries.drop_last()) + entries.last().target_weight as nat
    }
}

/// The share of `net` that falls to `weight` out of `total`, rounded down. A
/// basket without weight gets nothing.
pub open spec fn share_of(weight: nat, net: nat, total: nat) -> nat {
    if total == 0 {
        0
    } else {
        weight * net / total
    }
}

/// The split of `net` over the entries, each by its weight out of `total`.
pub open spec fn split_with(entries: Seq<EntryView>, net: nat, total: nat) -> Seq<PortionView> {
    Seq::new(
        entries.len(),
        |i: int|
            PortionView {
                asset_id: entries[i].asset_id,
                amount: share_of(entries[i].target_weight as nat, net, total),
            },
    )
}

/// The split of `net` over the entries by weight: one portion for each entry, in
/// order, of its weight times `net` over the sum of all weights.
pub open spec fn split_of(entries: Seq<EntryView>, net: nat) -> Seq<PortionView> {
    split_with(entries, net, total_weight(entries))
}

/// The amounts of the portions, summed.
pub open spec fn portions_total(portions: Seq<PortionView>) -> nat
    decreases portions.len(),
{
    if portions.len() == 0 {
        0
    } else {
        portions_total(portions.drop_last()) + portions.last().amount
    }
}

/// Whether the sum of the weights, or one product of weight and `net`, leaves
/// 128 bits.
pub open spec fn split_overflows(entries: Seq<EntryView>, net: nat) -> bool {
    ||| total_weight(entries) > u128::MAX
    ||| exists|i: int| 0 <= i < entries.len() && (#[trigger] entries[i]).target_weight * net > u128::MAX
}

/// What the rounding of the portions leaves over, times `total`.
spec fn remainders(entries: Seq<EntryView>, net: nat, total: nat) -> nat
    decreases entries.len(),
{
    if entries.len() == 0 {
        0
    } else {
        remainders(entries.drop_last(), net, total) + (entries.last().target_weight as nat * net)
            % total
    }
}

proof fn lemma_weight_of_prefix(entries: Seq<EntryView>, upto: int)
    requires
        0 <= upto <= entries.len(),
    ensures
        total_weight(entries.take(upto)) <= total_weight(entries),
    decreases entries.len(),
{
    if upto == entries.len() {
        assert(entries.take(upto) =~= entries);
    } else {
        assert(entries.drop_last().take(upto) =~= entries.take(upto));
        lemma_weight_of_prefix(entries.drop_last(), upto);
    }
}

proof fn lemma_weight_grows(entries: Seq<EntryView>, upto: int)
    requires
        0 <= upto < entries.len(),
    ensures
        total_weight(entries.take(upto + 1)) == total_weight(entries.take(upto))
            + entries[upto].target_weight,
{
    assert(entries.take(upto + 1).drop_last() =~= entries.take(upto));
}

proof fn lemma_division_step(product: nat, total: nat)
    requires
        total > 0,
    ensures
        product == (product / total) * total + product % total,
        0 <= product % total <= total - 1,
{
    vstd::arithmetic::div_mod::lemma_fundamental_div_mod(product as int, total as int);
    vstd::arithmetic::div_mod::lemma_mod_bound(product as int, total as int);
    assert((product / total) * total == total * (product / total)) by (nonlinear_arith);
}

proof fn lemma_split_accounts(entries: Seq<EntryView>, net: nat, total: nat)
    requires
        total > 0,
    ensures
        portions_total(split_with(entries, net, total)) * total + remainders(entries, net, total)
            == total_weight(entries) * net,
        remainders(entries, net, total) <= entries.len() * (total - 1),
    decreases entries.len(),
{
    if entries.len() == 0 {
        assert(portions_total(split_with(entries, net, total)) == 0);
        assert(0 * total == 0 && 0 * net == 0 && 0 * (total - 1) == 0) by (nonlinear_arith);
    } else {
        let rest = entries.drop_last();
        let weight = entries.last().target_weight as nat;
        lemma_split_accounts(rest, net, total);
        assert(split_with(entries, net, total).drop_last() =~= split_with(rest, net, total));
        lemma_division_step(weight * net, total);
        let before = portions_total(split_with(rest, net, total));
        let share = weight * net / total;
        assert(split_with(entries, net, total).last().amount == share);
        assert(portions_total(split_with(entries, net, total)) == before + share);
        assert(remainders(entries, net, total) == remainders(rest, net, total) + (weight * net)
            % total);
        assert(total_weight(entries) == total_weight(rest) + weight);
        assert((before + share) * total == before * total + share * total) by (nonlinear_arith);
        assert((total_weight(rest) + weight) * net == total_weight(rest) * net + weight * net)
            by (nonlinear_arith);
        assert(entries.len() * (total - 1) == rest.len() * (total - 1) + (total - 1))
            by (nonlinear_arith)
            requires
                entries.len() == rest.len() + 1,
        ;
    }
}

proof fn lemma_no_weight_no_split(entries: Seq<EntryView>, net: nat)
    ensures
        portions_total(split_with(entries, net, 0)) == 0,
    decreases entries.len(),
{
    if entries.len() > 0 {
        lemma_no_weight_no_split(entries.drop_last(), net);
        assert(split_with(entries, net, 0).drop_last() =~= split_with(entries.drop_last(), net, 0));
    }
}

/// A split never hands out more than there is: the portions sum to at most
/// `net`. Where the basket has weight, rounding leaves over less than one unit
/// for each asset but one.
pub proof fn lemma_split_within_net(entries: Seq<EntryView>, net: nat)
    ensures
        portions_total(split_of(entries, net)) <= net,
        total_weight(entries) > 0 ==> net - portions_total(split_of(entries, net))
            <= entries.len() - 1,
{
    let total = total_weight(entries);
    if total == 0 {
        lemma_no_weight_no_split(entries, net);
    } else {
        lemma_split_accounts(entries, net, total);
        let handed = portions_total(split_of(entries, net));
        let left = remainders(entries, net, total);
        let count = entries.len();
        let over = net - handed;
        assert(total * over == left) by (nonlinear_arith)
            requires
                handed * total + left == total * net,
                over == net - handed,
        ;
        assert(over >= 0) by (nonlinear_arith)
            requires
                total > 0,
                total * over >= 0,
        ;
        assert(count > 0);
        if over >= count {
            assert(total * over >= total * count) by (nonlinear_arith)
                requires
                    over >= count,
                    total > 0,
            ;
            assert(count * (total - 1) == total * count - count) by (nonlinear_arith);
        }
    }
}

/// Splits `net_amount` over the entries of `allocation` by weight. Each asset
/// gets its weight times the net amount over the sum of the weights, rounded
/// down; what the rounding leaves over is handed to nobody. An asset of weight
/// zero gets a portion of zero. The sum of the weights and the products are
/// taken in 128 bits; where one does not fit, nothing is split.
pub fn split_by_weight(net_amount: u128, allocation: &Vec<AllocationEntry>) -> (portions: Result<
    Vec<Portion>,
    SagaError,
>)
    ensures
        portions is Err <==> split_overflows(entry_views(allocation@), net_amount as nat),
        portions matches Err(e) ==> e == SagaError::ArithmeticOverflow,
        portions matches Ok(list) ==> portion_views(list@) == split_of(
            entry_views(allocation@),
            net_amount as nat,
        ),
        portions matches Ok(list) ==> portions_total(portion_views(list@)) <= net_amount,
        portions matches Ok(list) ==> (total_weight(entry_views(allocation@)) > 0 ==> net_amount
            - portions_total(portion_views(list@)) <= allocation.len() - 1),
{
    let ghost views = entry_views(allocation@);
    let ghost net = net_amount as nat;
    let mut total: u128 = 0;
    let mut i: usize = 0;
    while i < allocation.len()
        invariant
            i <= allocation.len(),
            views == entry_views(allocation@),
            total == total_weight(views.take(i as int)),
        decreases allocation.len() - i,
    {
        proof {
            lemma_weight_grows(views, i as int);
            lemma_weight_of_prefix(views, i + 1);
        }
        total = match total.checked_add(allocation[i].target_weight) {
            Some(sum) => sum,
            None => { return Err(SagaError::ArithmeticOverflow); },
        };
        i += 1;
    }
    assert(views.take(allocation.len() as int) =~= views);
    let mut list: Vec<Portion> = Vec::new();
    let mut j: usize = 0;
    while j < allocation.len()
        invariant
            j <= allocation.len(),
            views == entry_views(allocation@),
            net == net_amount as nat,
            total == total_weight(views),
            list.len() == j,
            forall|k: int| 0 <= k < j ==> (#[trigger] views[k]).target_weight * net <= u128::MAX,
            forall|k: int| 0 <= k < j ==> (#[trigger] list[k])@ == split_of(views, net)[k],
        decreases allocation.len() - j,
    {
        let product = match allocation[j].target_weight.checked_mul(net_amount) {
            Some(product) => product,
            None => {
                assert(views[j as int].target_weight * net > u128::MAX);
                return Err(SagaError::ArithmeticOverflow);
            },
        };
        let amount = if total == 0 {
            0
        } else {
            product / total
        };
        list.push(Portion { asset_id: allocation[j].asset_id.clone(), amount });
        j += 1;
    }
    proof {
        assert(portion_views(list@) =~= split_of(views, net));
        lemma_split_within_net(views, net);
    }
    Ok(list)
}

} // verus!
