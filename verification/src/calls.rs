//! The remote calls that a saga asks for. The library only names them; whoever
//! drives a saga makes them and reports how each one ended.

use crate::account::AccountId;
use vstd::prelude::*;

verus! {

/// One exchange at the venue.
#[derive(Debug, PartialEq, Eq)]
pub struct Action {
    /// The pool to trade in.
    pub pool_id: u64,
    /// The asset given.
    pub token_in: AccountId,
    /// How much of it is given.
    pub amount_in: u128,
    /// The asset wanted.
    pub token_out: AccountId,
    /// The least of it that the venue must give.
    pub min_amount_out: u128,
}

/// An exchange, with the assets named by their text.
pub struct ActionView {
    pub pool_id: u64,
    pub token_in: Seq<char>,
    pub amount_in: nat,
    pub token_out: Seq<char>,
    pub min_amount_out: nat,
}

impl View for Action {
    type V = ActionView;

    open spec fn view(&self) -> ActionView {
        ActionView {
            pool_id: self.pool_id,
            token_in: self.token_in@,
            amount_in: self.amount_in as nat,
            token_out: self.token_out@,
            min_amount_out: self.min_amount_out as nat,
        }
    }
}

impl Clone for Action {
    fn clone(&self) -> (copy: Self)
        ensures
            copy@ == self@,
    {
        Action {
            pool_id: self.pool_id,
            token_in: self.token_in.clone(),
            amount_in: self.amount_in,
            token_out: self.token_out.clone(),
            min_amount_out: self.min_amount_out,
        }
    }
}

/// The exchanges of a list, each by its view.
pub open spec fn action_views(actions: Seq<Action>) -> Seq<ActionView> {
    actions.map_values(|a: Action| a@)
}

/// A copy of the list.
pub fn copy_actions(actions: &Vec<Action>) -> (copy: Vec<Action>)
    ensures
        action_views(copy@) == action_views(actions@),
{
    let mut copy: Vec<Action> = Vec::new();
    let mut i: usize = 0;
    while i < actions.len()
        invariant
            i <= actions.len(),
            copy.len() == i,
            forall|k: int| 0 <= k < i ==> (#[trigger] copy[k])@ == actions[k]@,
        decreases actions.len() - i,
    {
        copy.push(actions[i].clone());
        i += 1;
    }
    assert(action_views(copy@) =~= action_views(actions@));
    copy
}

/// What a transfer says it is for.
#[derive(Clone, Copy, Debug, PartialEq, Eq, Structural)]
pub enum Note {
    /// Nothing.
    Blank,
    /// The manager's fee.
    ManagerFee,
    /// The platform's fee.
    PlatformFee,
    /// The distributor's fee.
    DistributorFee,
    /// A deposit given back after the exchange failed.
    Refund,
}

/// The words of a note.
pub open spec fn note_text(note: Note) -> Seq<char> {
    match note {
        Note::Blank => ""@,
        Note::ManagerFee => "manager fee"@,
        Note::PlatformFee => "platform fee"@,
        Note::DistributorFee => "distributor fee"@,
        Note::Refund => "Refund amount for failed Exchange"@,
    }
}

impl Note {
    /// The words of the note, as they go out with the transfer.
    pub fn text(&self) -> (words: &'static str)
        ensures
            words@ == note_text(*self),
    {
        match self {
            Note::Blank => "",
            Note::ManagerFee => "manager fee",
            Note::PlatformFee => "platform fee",
            Note::DistributorFee => "distributor fee",
            Note::Refund => "Refund amount for failed Exchange",
        }
    }
}

/// A call to one of the collaborators: the asset contracts, the venue, or the
/// ledger of shares.
#[derive(Debug, PartialEq, Eq)]
pub enum Call {
    /// Move `amount` of `asset` to `to`.
    Transfer { asset: AccountId, to: AccountId, amount: u128, memo: Note },
    /// Move `amount` of `asset` to `to` and tell `to` of it in the same call.
    TransferAndNotify { asset: AccountId, to: AccountId, amount: u128, memo: Note, payload: Note },
    /// Make these exchanges at the venue, in order.
    Swap { actions: Vec<Action> },
    /// Fetch `amount` of `asset` back from the venue.
    Withdraw { asset: AccountId, amount: u128 },
    /// Create `amount` shares for `account`.
    Mint { account: AccountId, amount: u128 },
    /// Destroy `amount` shares of `account`.
    Burn { account: AccountId, amount: u128 },
}

/// A call, with accounts and assets named by their text.
pub enum CallView {
    Transfer { asset: Seq<char>, to: Seq<char>, amount: nat, memo: Note },
    TransferAndNotify { asset: Seq<char>, to: Seq<char>, amount: nat, memo: Note, payload: Note },
    Swap { actions: Seq<ActionView> },
    Withdraw { asset: Seq<char>, amount: nat },
    Mint { account: Seq<char>, amount: nat },
    Burn { account: Seq<char>, amount: nat },
}

impl View for Call {
    type V = CallView;

    open spec fn view(&self) -> CallView {
        match *self {
            Call::Transfer { asset, to, amount, memo } => CallView::Transfer {
                asset: asset@,
                to: to@,
                amount: amount as nat,
                memo,
            },
            Call::TransferAndNotify { asset, to, amount, memo, payload } => {
                CallView::TransferAndNotify {
                    asset: asset@,
                    to: to@,
                    amount: amount as nat,
                    memo,
                    payload,
                }
            },
            Call::Swap { actions } => CallView::Swap { actions: action_views(actions@) },
            Call::Withdraw { asset, amount } => CallView::Withdraw {
                asset: asset@,
                amount: amount as nat,
            },
            Call::Mint { account, amount } => CallView::Mint {
                account: account@,
                amount: amount as nat,
            },
            Call::Burn { account, amount } => CallView::Burn {
                account: account@,
                amount: amount as nat,
            },
        }
    }
}

/// The calls of a list, each by its view.
pub open spec fn call_views(calls: Seq<Call>) -> Seq<CallView> {
    calls.map_values(|c: Call| c@)
}

/// Whether one of the calls creates shares.
pub open spec fn mints_shares(calls: Seq<CallView>) -> bool {
    exists|i: int| 0 <= i < calls.len() && (#[trigger] calls[i]) is Mint
}

} // verus!
