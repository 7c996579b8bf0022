//! The basket: which assets the index holds, at what weight, and by which route
//! of the venue each is traded.

use crate::account::AccountId;
use crate::error::SagaError;
use vstd::prelude::*;

verus! {

/// One constituent asset of the basket.
#[derive(Debug, PartialEq, Eq)]
pub struct AllocationEntry {
    /// The asset.
    pub asset_id: AccountId,
    /// Its weight in the basket, relative to the other weights.
    pub target_weight: u128,
    /// The pool of the venue through which it is traded.
    pub venue_route: u64,
}

/// An entry, with the asset named by its text.
pub struct EntryView {
    pub asset_id: Seq<char>,
    pub target_weight: u128,
    pub venue_route: u64,
}

impl View for AllocationEntry {
    type V = EntryView;

    open spec fn view(&self) -> EntryView {
        EntryView {
            asset_id: self.asset_id@,
            target_weight: self.target_weight,
            venue_route: self.venue_route,
        }
    }
}

impl Clone for AllocationEntry {
    fn clone(&self) -> (copy: Self)
        ensures
            copy@ == self@,
    {
        AllocationEntry {
            asset_id: self.asset_id.clone(),
            target_weight: self.target_weight,
            venue_route: self.venue_route,
        }
    }
}

/// The entries of a list, each by its view.
pub open spec fn entry_views(entries: Seq<AllocationEntry>) -> Seq<EntryView> {
    entries.map_values(|e: AllocationEntry| e@)
}

/// No asset is named twice.
pub open spec fn distinct_assets(entries: Seq<EntryView>) -> bool {
    forall|i: int, j: int|
        0 <= i < j < entries.len() ==> (#[trigger] entries[i]).asset_id != (
        #[trigger] entries[j]).asset_id
}

/// The asset is one of the entries.
pub open spec fn holds_asset(entries: Seq<EntryView>, asset: Seq<char>) -> bool {
    exists|i: int| 0 <= i < entries.len() && (#[trigger] entries[i]).asset_id == asset
}

/// Whether `asset` is named by one of the first `upto` entries.
fn named_before(entries: &Vec<AllocationEntry>, upto: usize, asset: &AccountId) -> (found: bool)
    requires
        upto <= entries.len(),
    ensures
        found == holds_asset(entry_views(entries@).take(upto as int), asset@),
{
    let ghost views = entry_views(entries@).take(upto as int);
    let mut i: usize = 0;
    while i < upto
        invariant
            i <= upto <= entries.len(),
            views == entry_views(entries@).take(upto as int),
            forall|k: int| 0 <= k < i ==> (#[trigger] views[k]).asset_id != asset@,
        decreases upto - i,
    {
        if entries[i].asset_id.same_as(asset) {
            assert(views[i as int].asset_id == asset@);
            return true;
        }
        i += 1;
    }
    false
}

/// Whether the list names every asset at most once.
pub fn all_distinct(entries: &Vec<AllocationEntry>) -> (distinct: bool)
    ensures
        distinct == distinct_assets(entry_views(entries@)),
{
    let ghost views = entry_views(entries@);
    let mut j: usize = 0;
    while j < entries.len()
        invariant
            j <= entries.len(),
            views == entry_views(entries@),
            distinct_assets(views.take(j as int)),
        decreases entries.len() - j,
    {
        if named_before(entries, j, &entries[j].asset_id) {
            let ghost i = choose|i: int|
                0 <= i < j && (#[trigger] views.take(j as int)[i]).asset_id == views[j as int].asset_id;
            assert(views[i].asset_id == views[j as int].asset_id);
            return false;
        }
        proof {
            let before = views.take(j as int);
            let after = views.take(j + 1);
            assert forall|a: int, b: int| 0 <= a < b < after.len() implies (#[trigger] after[a]).asset_id
                != (#[trigger] after[b]).asset_id by {
                if b < j {
                    assert(before[a].asset_id != before[b].asset_id);
                } else {
                    assert(before[a].asset_id != views[j as int].asset_id);
                }
            }
        }
        j += 1;
    }
    assert(views.take(entries.len() as int) =~= views);
    true
}

/// A copy of the list.
pub fn copy_entries(entries: &Vec<AllocationEntry>) -> (copy: Vec<AllocationEntry>)
    ensures
        entry_views(copy@) == entry_views(entries@),
{
    let mut copy: Vec<AllocationEntry> = Vec::new();
    let mut i: usize = 0;
    while i < entries.len()
        invariant
            i <= entries.len(),
            copy.len() == i,
            forall|k: int| 0 <= k < i ==> (#[trigger] copy[k])@ == entries[k]@,
        decreases entries.len() - i,
    {
        copy.push(entries[i].clone());
        i += 1;
    }
    assert(entry_views(copy@) =~= entry_views(entries@));
    copy
}

/// Makes one entry of each position of three lists of equal length.
pub fn pair_entries(
    token_list: Vec<AccountId>,
    token_alloc: Vec<u128>,
    token_pool_ids: Vec<u64>,
) -> (entries: Result<Vec<AllocationEntry>, SagaError>)
    ensures
        entries is Ok <==> token_list.len() == token_alloc.len() && token_list.len()
            == token_pool_ids.len(),
        entries matches Err(e) ==> e == SagaError::InvalidAllocation,
        entries matches Ok(list) ==> {
            &&& list.len() == token_list.len()
            &&& forall|i: int|
                0 <= i < list.len() ==> (#[trigger] list[i])@ == (EntryView {
                    asset_id: token_list[i]@,
                    target_weight: token_alloc[i],
                    venue_route: token_pool_ids[i],
                })
        },
{
    if token_list.len() != token_alloc.len() || token_list.len() != token_pool_ids.len() {
        return Err(SagaError::InvalidAllocation);
    }
    let mut list: Vec<AllocationEntry> = Vec::new();
    let mut i: usize = 0;
    while i < token_list.len()
        invariant
            i <= token_list.len(),
            token_list.len() == token_alloc.len(),
            token_list.len() == token_pool_ids.len(),
            list.len() == i,
            forall|k: int|
                0 <= k < i ==> (#[trigger] list[k])@ == (EntryView {
                    asset_id: token_list[k]@,
                    target_weight: token_alloc[k],
                    venue_route: token_pool_ids[k],
                }),
        decreases token_list.len() - i,
    {
        list.push(
            AllocationEntry {
                asset_id: token_list[i].clone(),
                target_weight: token_alloc[i],
                venue_route: token_pool_ids[i],
            },
        );
        i += 1;
    }
    Ok(list)
}

/// No name occurs twice.
pub open spec fn distinct_names(names: Seq<AccountId>) -> bool {
    forall|i: int, j: int|
        0 <= i < j < names.len() ==> (#[trigger] names[i])@ != (#[trigger] names[j])@
}

/// The first place of `asset` among the first `upto` names, if it is there.
fn place_of(names: &Vec<AccountId>, upto: usize, asset: &AccountId) -> (place: Option<usize>)
    requires
        upto <= names.len(),
    ensures
        place matches Some(k) ==> k < upto && names[k as int]@ == asset@,
        place is None ==> forall|k: int| 0 <= k < upto ==> (#[trigger] names[k])@ != asset@,
{
    let mut k: usize = 0;
    while k < upto
        invariant
            k <= upto <= names.len(),
            forall|m: int| 0 <= m < k ==> (#[trigger] names[m])@ != asset@,
        decreases upto - k,
    {
        if names[k].same_as(asset) {
            return Some(k);
        }
        k += 1;
    }
    None
}

/// Whether the list names every account at most once.
pub fn names_distinct(names: &Vec<AccountId>) -> (distinct: bool)
    ensures
        distinct == distinct_names(names@),
{
    let mut j: usize = 0;
    while j < names.len()
        invariant
            j <= names.len(),
            forall|a: int, b: int| 0 <= a < b < j ==> (#[trigger] names[a])@ != (#[trigger] names[b])@,
        decreases names.len() - j,
    {
        if place_of(names, j, &names[j]).is_some() {
            return false;
        }
        j += 1;
    }
    true
}

/// The basket `after` is the basket `before` with the pool of each asset among
/// `assets` replaced by the pool at the same place of `pools`, and all else as it
/// was.
pub open spec fn rerouted(
    before: Seq<EntryView>,
    assets: Seq<AccountId>,
    pools: Seq<u64>,
    after: Seq<EntryView>,
) -> bool {
    &&& after.len() == before.len()
    &&& forall|j: int|
        0 <= j < before.len() ==> (#[trigger] after[j]).asset_id == before[j].asset_id
            && after[j].target_weight == before[j].target_weight
    &&& forall|j: int, k: int|
        0 <= j < before.len() && 0 <= k < assets.len() && (#[trigger] assets[k])@
            == before[j].asset_id ==> (#[trigger] after[j]).venue_route == pools[k]
    &&& forall|j: int|
        0 <= j < before.len() && !names_asset(assets, before[j].asset_id) ==> (
        #[trigger] after[j]).venue_route == before[j].venue_route
}

/// The asset is one of the names.
pub open spec fn names_asset(names: Seq<AccountId>, asset: Seq<char>) -> bool {
    exists|k: int| 0 <= k < names.len() && (#[trigger] names[k])@ == asset
}

/// Every name is an asset of the basket.
pub open spec fn all_held(entries: Seq<EntryView>, names: Seq<AccountId>) -> bool {
    forall|k: int| 0 <= k < names.len() ==> holds_asset(entries, (#[trigger] names[k])@)
}

/// The basket in force. No asset is in it twice.
#[derive(Debug)]
pub struct AllocationLedger {
    entries: Vec<AllocationEntry>,
}

impl View for AllocationLedger {
    type V = Seq<EntryView>;

    closed spec fn view(&self) -> Seq<EntryView> {
        entry_views(self.entries@)
    }
}

impl AllocationLedger {
    #[verifier::type_invariant]
    spec fn no_asset_twice(self) -> bool {
        distinct_assets(entry_views(self.entries@))
    }

    /// The empty basket.
    pub fn new() -> (ledger: AllocationLedger)
        ensures
            ledger@ == Seq::<EntryView>::empty(),
    {
        let ledger = AllocationLedger { entries: Vec::new() };
        assert(ledger@ =~= Seq::<EntryView>::empty());
        ledger
    }

    /// The basket of `entries`, if they name no asset twice.
    pub fn with_entries(entries: Vec<AllocationEntry>) -> (ledger: Result<
        AllocationLedger,
        SagaError,
    >)
        ensures
            ledger is Ok <==> distinct_assets(entry_views(entries@)),
            ledger matches Err(e) ==> e == SagaError::InvalidAllocation,
            ledger matches Ok(l) ==> l@ == entry_views(entries@),
    {
        if !all_distinct(&entries) {
            return Err(SagaError::InvalidAllocation);
        }
        Ok(AllocationLedger { entries })
    }

    /// Replaces the whole basket by `entries`, all or nothing. Only the
    /// administrator may do so, and no asset may be named twice.
    pub fn set_allocation(
        &mut self,
        caller: &AccountId,
        administrator: &AccountId,
        entries: Vec<AllocationEntry>,
    ) -> (done: Result<(), SagaError>)
        ensures
            done is Ok <==> caller@ == administrator@ && distinct_assets(entry_views(entries@)),
            done matches Err(e) ==> e == SagaError::InvalidAllocation,
            done is Ok ==> final(self)@ == entry_views(entries@),
            done is Err ==> final(self)@ == old(self)@,
            distinct_assets(final(self)@),
    {
        proof {
            use_type_invariant(&*self);
        }
        if !caller.same_as(administrator) || !all_distinct(&entries) {
            return Err(SagaError::InvalidAllocation);
        }
        self.entries = entries;
        Ok(())
    }

    /// Gives each asset of `assets` the pool at the same place of `pools`, all or
    /// nothing. The two lists must be of one length and name no asset twice, and
    /// every asset named must be in the basket. Weights and order stay.
    pub fn reroute(&mut self, assets: &Vec<AccountId>, pools: &Vec<u64>) -> (done: Result<
        (),
        SagaError,
    >)
        ensures
            done is Ok <==> assets.len() == pools.len() && distinct_names(assets@) && all_held(
                old(self)@,
                assets@,
            ),
            done matches Err(e) ==> e == (if assets.len() != pools.len() || !distinct_names(
                assets@,
            ) {
                SagaError::InvalidAllocation
            } else {
                SagaError::UnknownAsset
            }),
            done is Ok ==> rerouted(old(self)@, assets@, pools@, final(self)@),
            done is Err ==> final(self)@ == old(self)@,
            distinct_assets(final(self)@),
    {
        proof {
            use_type_invariant(&*self);
        }
        if assets.len() != pools.len() || !names_distinct(assets) {
            return Err(SagaError::InvalidAllocation);
        }
        let ghost before = entry_views(self.entries@);
        let mut k: usize = 0;
        while k < assets.len()
            invariant
                k <= assets.len(),
                assets.len() == pools.len(),
                distinct_names(assets@),
                *self == *old(self),
                before == entry_views(self.entries@),
                distinct_assets(before),
                forall|m: int| 0 <= m < k ==> holds_asset(before, (#[trigger] assets[m])@),
            decreases assets.len() - k,
        {
            assert(before.take(self.entries.len() as int) =~= before);
            if !named_before(&self.entries, self.entries.len(), &assets[k]) {
                assert(!holds_asset(before, assets[k as int]@));
                return Err(SagaError::UnknownAsset);
            }
            k += 1;
        }
        let mut entries: Vec<AllocationEntry> = Vec::new();
        let mut j: usize = 0;
        while j < self.entries.len()
            invariant
                j <= self.entries.len(),
                assets.len() == pools.len(),
                distinct_names(assets@),
                *self == *old(self),
                before == entry_views(self.entries@),
                distinct_assets(before),
                entries.len() == j,
                forall|i: int|
                    0 <= i < j ==> (#[trigger] entries[i])@.asset_id == before[i].asset_id
                        && entries[i]@.target_weight == before[i].target_weight,
                forall|i: int, m: int|
                    0 <= i < j && 0 <= m < assets.len() && (#[trigger] assets[m])@
                        == before[i].asset_id ==> (#[trigger] entries[i])@.venue_route == pools[m],
                forall|i: int|
                    0 <= i < j && !names_asset(assets@, before[i].asset_id) ==> (
                    #[trigger] entries[i])@.venue_route == before[i].venue_route,
            decreases self.entries.len() - j,
        {
            let entry = &self.entries[j];
            assert(before[j as int] == entry@);
            let venue_route = match place_of(assets, assets.len(), &entry.asset_id) {
                Some(m) => pools[m],
                None => entry.venue_route,
            };
            entries.push(
                AllocationEntry {
                    asset_id: entry.asset_id.clone(),
                    target_weight: entry.target_weight,
                    venue_route,
                },
            );
            j += 1;
        }
        proof {
            let after = entry_views(entries@);
            assert forall|a: int, b: int| 0 <= a < b < after.len() implies (#[trigger] after[a]).asset_id
                != (#[trigger] after[b]).asset_id by {
                assert(before[a].asset_id != before[b].asset_id);
                assert(entries[a]@.asset_id == before[a].asset_id);
                assert(entries[b]@.asset_id == before[b].asset_id);
            }
            assert forall|i: int| 0 <= i < before.len() implies (#[trigger] after[i]).asset_id
                == before[i].asset_id && after[i].target_weight == before[i].target_weight by {
                assert(entries[i]@.asset_id == before[i].asset_id);
            }
            assert forall|i: int, m: int|
                0 <= i < before.len() && 0 <= m < assets.len() && (#[trigger] assets[m])@
                    == before[i].asset_id implies (#[trigger] after[i]).venue_route == pools[m] by {
                assert(entries[i]@.venue_route == pools[m]);
            }
            assert forall|i: int|
                0 <= i < before.len() && !names_asset(assets@, before[i].asset_id) implies (
            #[trigger] after[i]).venue_route == before[i].venue_route by {
                assert(entries[i]@.venue_route == before[i].venue_route);
            }
        }
        self.entries = entries;
        Ok(())
    }

    /// A copy of the basket as it stands; later changes do not reach it.
    pub fn get_allocation(&self) -> (snapshot: Vec<AllocationEntry>)
        ensures
            entry_views(snapshot@) == self@,
            distinct_assets(self@),
    {
        proof {
            use_type_invariant(self);
        }
        copy_entries(&self.entries)
    }

    /// The route of the venue for `asset_id`.
    pub fn route_for(&self, asset_id: &AccountId) -> (route: Result<u64, SagaError>)
        ensures
            route is Ok <==> holds_asset(self@, asset_id@),
            route matches Err(e) ==> e == SagaError::UnknownAsset,
            route matches Ok(pool) ==> exists|i: int|
                0 <= i < self@.len() && (#[trigger] self@[i]).asset_id == asset_id@
                    && self@[i].venue_route == pool,
    {
        let ghost views = entry_views(self.entries@);
        let mut i: usize = 0;
        while i < self.entries.len()
            invariant
                i <= self.entries.len(),
                views == entry_views(self.entries@),
                forall|k: int| 0 <= k < i ==> (#[trigger] views[k]).asset_id != asset_id@,
            decreases self.entries.len() - i,
        {
            if self.entries[i].asset_id.same_as(asset_id) {
                assert(views[i as int].asset_id == asset_id@);
                assert(self@[i as int] == views[i as int]);
                return Ok(self.entries[i].venue_route);
            }
            i += 1;
        }
        Err(SagaError::UnknownAsset)
    }
}

} // verus!
