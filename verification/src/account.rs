//! Account names, as the network accepts them.

use vstd::prelude::*;

verus! {

/// Letters of an account name: lower-case ASCII letters and digits.
pub open spec fn is_name_letter(c: char) -> bool {
    ('a' <= c && c <= 'z') || ('0' <= c && c <= '9')
}

/// Separators of an account name.
pub open spec fn is_name_separator(c: char) -> bool {
    c == '-' || c == '_' || c == '.'
}

/// The names that the network accepts: 2 to 64 letters and separators, where a
/// separator stands neither first nor last nor next to another separator.
pub open spec fn account_name_accepted(name: Seq<char>) -> bool {
    &&& 2 <= name.len() <= 64
    &&& forall|i: int|
        0 <= i < name.len() ==> is_name_letter(#[trigger] name[i]) || is_name_separator(name[i])
    &&& !is_name_separator(name[0])
    &&& !is_name_separator(name[name.len() - 1])
    &&& forall|i: int|
        0 < i < name.len() ==> !(is_name_separator(name[i - 1]) && is_name_separator(
            #[trigger] name[i],
        ))
}

/// Asks `near_sdk::AccountId`'s `FromStr` impl whether it takes `name`. That impl
/// validates with `near_sdk::env::is_valid_account_id`, which looks at the text
/// alone; the contract restates its rule.
#[verifier::external_body]
fn name_is_accepted(name: &str) -> (accepted: bool)
    ensures
        accepted == account_name_accepted(name@),
{
    name.parse::<near_sdk::AccountId>().is_ok()
}

/// The name of an account on the network.
#[derive(Debug, PartialEq, Eq)]
pub struct AccountId {
    name: String,
}

impl View for AccountId {
    type V = Seq<char>;

    closed spec fn view(&self) -> Seq<char> {
        self.name@
    }
}

impl AccountId {
    #[verifier::type_invariant]
    spec fn name_accepted(self) -> bool {
        account_name_accepted(self.name@)
    }

    /// Takes `name` as an account name if the network accepts it.
    pub fn parse(name: &str) -> (id: Option<AccountId>)
        ensures
            id.is_some() == account_name_accepted(name@),
            id matches Some(a) ==> a@ == name@,
    {
        if name_is_accepted(name) {
            Some(AccountId { name: name.to_owned() })
        } else {
            None
        }
    }

    /// The name as text.
    pub fn as_str(&self) -> (name: &str)
        ensures
            name@ == self@,
            account_name_accepted(name@),
    {
        proof {
            use_type_invariant(self);
        }
        self.name.as_str()
    }

    /// Whether both names are the same account.
    pub fn same_as(&self, other: &AccountId) -> (same: bool)
        ensures
            same == (self@ == other@),
    {
        self.name == other.name
    }
}

impl Clone for AccountId {
    fn clone(&self) -> (copy: Self)
        ensures
            copy@ == self@,
    {
        proof {
            use_type_invariant(self);
        }
        AccountId { name: self.name.clone() }
    }
}

/// The name of the exchange venue's account.
pub open spec fn venue_name() -> Seq<char> {
    "ref-finance-101.testnet"@
}

/// The account of the exchange venue.
pub fn venue_account() -> (venue: AccountId)
    ensures
        venue@ == venue_name(),
{
    let name = "ref-finance-101.testnet";
    proof {
        reveal_strlit("ref-finance-101.testnet");
        assert(account_name_accepted(name@));
    }
    match AccountId::parse(name) {
        Some(venue) => venue,
        None => vstd::pervasive::unreached(),
    }
}

} // verus!
