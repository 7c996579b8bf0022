//! What the contract is configured with, and who may change it.

use crate::account::AccountId;
use crate::allocation::{
    all_held, distinct_names, pair_entries, rerouted, AllocationEntry, AllocationLedger, EntryView,
};
use crate::error::SagaError;
use crate::fees::{FeeRates, FeeSchedule};
use vstd::prelude::*;

verus! {

/// Who takes part in one call into the contract.
#[derive(Debug)]
pub struct CallContext {
    /// The account of the contract itself. It is the administrator.
    pub current_account_id: AccountId,
    /// The account that signed the transaction.
    pub signer_account_id: AccountId,
    /// The account that made this call.
    pub predecessor_account_id: AccountId,
}

impl CallContext {
    /// The signer is the administrator.
    pub open spec fn signed_by_administrator(&self) -> bool {
        self.signer_account_id@ == self.current_account_id@
    }

    /// The call comes from the contract itself.
    pub open spec fn made_by_contract(&self) -> bool {
        self.predecessor_account_id@ == self.current_account_id@
    }
}

/// The configuration of the index. It is changed only through the functions
/// below, which ask who is calling.
#[derive(Debug)]
pub struct Contract {
    /// The basket.
    allocation: AllocationLedger,
    /// The base asset, in which deposits are made and proceeds paid.
    input_token: AccountId,
    /// The least deposit that is taken.
    min_investment: u128,
    /// The name of the manager of the index.
    token_manager: String,
    /// The price of one whole share, in the base asset.
    base_price: u128,
    /// The fee rates.
    fees: FeeSchedule,
    /// The number of decimal places of a share.
    decimals: u8,
    /// Who gets the manager's fee.
    manager: AccountId,
    /// Who gets the platform's fee.
    platform: AccountId,
    /// Who gets the distributor's fee.
    distributor: AccountId,
}

/// The configuration, with accounts named by their text.
pub struct ContractView {
    pub allocation: Seq<EntryView>,
    pub input_token: Seq<char>,
    pub min_investment: u128,
    pub token_manager: Seq<char>,
    pub base_price: u128,
    pub fees: FeeRates,
    pub decimals: u8,
    pub manager: Seq<char>,
    pub platform: Seq<char>,
    pub distributor: Seq<char>,
}

impl View for Contract {
    type V = ContractView;

    closed spec fn view(&self) -> ContractView {
        ContractView {
            allocation: self.allocation@,
            input_token: self.input_token@,
            min_investment: self.min_investment,
            token_manager: self.token_manager@,
            base_price: self.base_price,
            fees: self.fees@,
            decimals: self.decimals,
            manager: self.manager@,
            platform: self.platform@,
            distributor: self.distributor@,
        }
    }
}

/// The decimal places of a share where none are asked for.
pub const DEFAULT_DECIMALS: u8 = 24;

impl Contract {
    /// Sets the index up with a basket of one entry for each position of the three
    /// lists. The lists must be of one length and name no asset twice.
    pub fn new(
        decimals: u8,
        token_list: Vec<AccountId>,
        token_alloc: Vec<u128>,
        token_pool_ids: Vec<u64>,
        input_token: AccountId,
        min_investment: u128,
        token_manager: String,
        base_price: u128,
        fees: FeeSchedule,
        manager: AccountId,
        platform: AccountId,
        distributor: AccountId,
    ) -> (contract: Result<Contract, SagaError>)
        ensures
            contract is Ok <==> basket_accepted(token_list@, token_alloc@, token_pool_ids@),
            contract matches Err(e) ==> e == SagaError::InvalidAllocation,
            contract matches Ok(c) ==> c@ == (ContractView {
                allocation: basket_of(token_list@, token_alloc@, token_pool_ids@),
                input_token: input_token@,
                min_investment,
                token_manager: token_manager@,
                base_price,
                fees: fees@,
                decimals,
                manager: manager@,
                platform: platform@,
                distributor: distributor@,
            }),
    {
        let entries = match pair_entries(token_list, token_alloc, token_pool_ids) {
            Ok(entries) => entries,
            Err(e) => { return Err(e); },
        };
        assert(crate::allocation::entry_views(entries@) =~= basket_of(
            token_list@,
            token_alloc@,
            token_pool_ids@,
        ));
        let allocation = match AllocationLedger::with_entries(entries) {
            Ok(allocation) => allocation,
            Err(e) => { return Err(e); },
        };
        Ok(
            Contract {
                allocation,
                input_token,
                min_investment,
                token_manager,
                base_price,
                fees,
                decimals,
                manager,
                platform,
                distributor,
            },
        )
    }

    /// Sets the index up as `new` does, with shares of twenty-four decimal places.
    pub fn new_default_meta(
        token_list: Vec<AccountId>,
        token_alloc: Vec<u128>,
        token_pool_ids: Vec<u64>,
        input_token: AccountId,
        min_investment: u128,
        token_manager: String,
        base_price: u128,
        fees: FeeSchedule,
        manager: AccountId,
        platform: AccountId,
        distributor: AccountId,
    ) -> (contract: Result<Contract, SagaError>)
        ensures
            contract is Ok <==> basket_accepted(token_list@, token_alloc@, token_pool_ids@),
            contract matches Err(e) ==> e == SagaError::InvalidAllocation,
            contract matches Ok(c) ==> c@ == (ContractView {
                allocation: basket_of(token_list@, token_alloc@, token_pool_ids@),
                input_token: input_token@,
                min_investment,
                token_manager: token_manager@,
                base_price,
                fees: fees@,
                decimals: 24,
                manager: manager@,
                platform: platform@,
                distributor: distributor@,
            }),
    {
        Contract::new(
            DEFAULT_DECIMALS,
            token_list,
            token_alloc,
            token_pool_ids,
            input_token,
            min_investment,
            token_manager,
            base_price,
            fees,
            manager,
            platform,
            distributor,
        )
    }

    /// Names another base asset. Only the administrator may.
    pub fn update_input_token(&mut self, ctx: &CallContext, input_token: AccountId) -> (done:
        Result<(), SagaError>)
        ensures
            done is Ok <==> ctx.signed_by_administrator(),
            done matches Err(e) ==> e == SagaError::Unauthorized,
            done is Ok ==> final(self)@ == (ContractView {
                input_token: input_token@,
                ..old(self)@
            }),
            done is Err ==> final(self)@ == old(self)@,
    {
        if !ctx.signer_account_id.same_as(&ctx.current_account_id) {
            return Err(SagaError::Unauthorized);
        }
        self.input_token = input_token;
        Ok(())
    }

    /// Sets another price for one whole share. Only the administrator may.
    pub fn update_base_price(&mut self, ctx: &CallContext, base_price: u128) -> (done: Result<
        (),
        SagaError,
    >)
        ensures
            done is Ok <==> ctx.signed_by_administrator(),
            done matches Err(e) ==> e == SagaError::Unauthorized,
            done is Ok ==> final(self)@ == (ContractView { base_price, ..old(self)@ }),
            done is Err ==> final(self)@ == old(self)@,
    {
        if !ctx.signer_account_id.same_as(&ctx.current_account_id) {
            return Err(SagaError::Unauthorized);
        }
        self.base_price = base_price;
        Ok(())
    }

    /// Sets other fee rates. Only the administrator may.
    pub fn update_fee_schedule(&mut self, ctx: &CallContext, fees: FeeSchedule) -> (done: Result<
        (),
        SagaError,
    >)
        ensures
            done is Ok <==> ctx.signed_by_administrator(),
            done matches Err(e) ==> e == SagaError::Unauthorized,
            done is Ok ==> final(self)@ == (ContractView { fees: fees@, ..old(self)@ }),
            done is Err ==> final(self)@ == old(self)@,
    {
        if !ctx.signer_account_id.same_as(&ctx.current_account_id) {
            return Err(SagaError::Unauthorized);
        }
        self.fees = fees;
        Ok(())
    }

    /// Replaces the whole basket by one entry for each position of the three
    /// lists, all or nothing. Only the administrator may; the lists must be of
    /// one length and name no asset twice.
    pub fn update_token_allocation(
        &mut self,
        ctx: &CallContext,
        token_list: Vec<AccountId>,
        token_alloc: Vec<u128>,
        token_pool_ids: Vec<u64>,
    ) -> (done: Result<(), SagaError>)
        ensures
            done is Ok <==> ctx.signed_by_administrator() && basket_accepted(
                token_list@,
                token_alloc@,
                token_pool_ids@,
            ),
            done matches Err(e) ==> e == (if !ctx.signed_by_administrator() {
                SagaError::Unauthorized
            } else {
                SagaError::InvalidAllocation
            }),
            done is Ok ==> final(self)@ == (ContractView {
                allocation: basket_of(token_list@, token_alloc@, token_pool_ids@),
                ..old(self)@
            }),
            done is Err ==> final(self)@ == old(self)@,
    {
        if !ctx.signer_account_id.same_as(&ctx.current_account_id) {
            return Err(SagaError::Unauthorized);
        }
        let entries = match pair_entries(token_list, token_alloc, token_pool_ids) {
            Ok(entries) => entries,
            Err(e) => { return Err(e); },
        };
        assert(crate::allocation::entry_views(entries@) =~= basket_of(
            token_list@,
            token_alloc@,
            token_pool_ids@,
        ));
        self.allocation.set_allocation(&ctx.signer_account_id, &ctx.current_account_id, entries)
    }

    /// Gives each asset of `token_list` the pool at the same place of
    /// `pool_list`, all or nothing. Only the administrator may; the lists must be
    /// of one length and name no asset twice, and every asset named must be in the
    /// basket.
    pub fn update_token_swap_pool(
        &mut self,
        ctx: &CallContext,
        token_list: Vec<AccountId>,
        pool_list: Vec<u64>,
    ) -> (done: Result<(), SagaError>)
        ensures
            done is Ok <==> ctx.signed_by_administrator() && token_list.len() == pool_list.len()
                && distinct_names(token_list@) && all_held(old(self)@.allocation, token_list@),
            done matches Err(e) ==> e == (if !ctx.signed_by_administrator() {
                SagaError::Unauthorized
            } else if token_list.len() != pool_list.len() || !distinct_names(token_list@) {
                SagaError::InvalidAllocation
            } else {
                SagaError::UnknownAsset
            }),
            done is Ok ==> rerouted(
                old(self)@.allocation,
                token_list@,
                pool_list@,
                final(self)@.allocation,
            ) && final(self)@ == (ContractView {
                allocation: final(self)@.allocation,
                ..old(self)@
            }),
            done is Err ==> final(self)@ == old(self)@,
    {
        if !ctx.signer_account_id.same_as(&ctx.current_account_id) {
            return Err(SagaError::Unauthorized);
        }
        self.allocation.reroute(&token_list, &pool_list)
    }

    /// A copy of the basket as it stands.
    pub fn ft_token_allocation(&self) -> (snapshot: Vec<AllocationEntry>)
        ensures
            crate::allocation::entry_views(snapshot@) == self@.allocation,
            crate::allocation::distinct_assets(self@.allocation),
    {
        self.allocation.get_allocation()
    }

    /// The least deposit that is taken.
    pub fn min_investment(&self) -> (least: u128)
        ensures
            least == self@.min_investment,
    {
        self.min_investment
    }

    /// The base asset.
    pub fn input_token(&self) -> (asset: &AccountId)
        ensures
            asset@ == self@.input_token,
    {
        &self.input_token
    }

    /// The name of the manager of the index.
    pub fn token_manager(&self) -> (name: &str)
        ensures
            name@ == self@.token_manager,
    {
        self.token_manager.as_str()
    }

    /// The price of one whole share, in the base asset.
    pub fn base_price(&self) -> (price: u128)
        ensures
            price == self@.base_price,
    {
        self.base_price
    }

    /// The fee rates.
    pub fn fees(&self) -> (schedule: FeeSchedule)
        ensures
            schedule@ == self@.fees,
    {
        self.fees
    }

    /// The number of decimal places of a share.
    pub fn decimals(&self) -> (places: u8)
        ensures
            places == self@.decimals,
    {
        self.decimals
    }

    /// Who gets the manager's fee.
    pub fn manager(&self) -> (account: &AccountId)
        ensures
            account@ == self@.manager,
    {
        &self.manager
    }

    /// Who gets the platform's fee.
    pub fn platform(&self) -> (account: &AccountId)
        ensures
            account@ == self@.platform,
    {
        &self.platform
    }

    /// Who gets the distributor's fee.
    pub fn distributor(&self) -> (account: &AccountId)
        ensures
            account@ == self@.distributor,
    {
        &self.distributor
    }
}

/// The basket that three lists of one length describe: one entry for each
/// position.
pub open spec fn basket_of(
    token_list: Seq<AccountId>,
    token_alloc: Seq<u128>,
    token_pool_ids: Seq<u64>,
) -> Seq<EntryView> {
    Seq::new(
        token_list.len(),
        |i: int|
            EntryView {
                asset_id: token_list[i]@,
                target_weight: token_alloc[i],
                venue_route: token_pool_ids[i],
            },
    )
}

/// Three lists describe a basket where they are of one length and name no asset
/// twice.
pub open spec fn basket_accepted(
    token_list: Seq<AccountId>,
    token_alloc: Seq<u128>,
    token_pool_ids: Seq<u64>,
) -> bool {
    &&& token_list.len() == token_alloc.len()
    &&& token_list.len() == token_pool_ids.len()
    &&& crate::allocation::distinct_assets(basket_of(token_list, token_alloc, token_pool_ids))
}

} // verus!
