//! What a call owes for the storage it took up.

use vstd::prelude::*;

verus! {

/// The price of one byte of storage, in the smallest unit of the network's own
/// token.
pub open spec fn byte_price() -> nat {
    10_000_000_000_000_000_000
}

/// Calls `near_sdk::env::storage_byte_cost`, which returns the constant price
/// per byte that the network was started with.
#[verifier::external_body]
fn byte_cost() -> (cost: u128)
    ensures
        cost == byte_price(),
{
    near_sdk::env::storage_byte_cost()
}

/// What the storage taken up between two readings of the usage costs. Storage
/// that did not grow costs nothing.
pub open spec fn storage_cost(usage_before: u64, usage_after: u64) -> nat {
    if usage_after > usage_before {
        ((usage_after - usage_before) * byte_price()) as nat
    } else {
        0
    }
}

/// How a call stands with the storage it took up.
#[derive(Clone, Copy, Debug, PartialEq, Eq, Structural)]
pub enum StorageCharge {
    /// The attached deposit does not cover the cost of `required`.
    Short { required: u128 },
    /// The deposit covers the cost. What is left of it goes back to the caller
    /// if it is more than one unit.
    Covered { refund: Option<u128> },
}

/// The charge for the storage taken up between two readings, against the
/// deposit attached to the call.
pub open spec fn charge_for(usage_before: u64, usage_after: u64, attached_deposit: u128) -> StorageCharge {
    let required = storage_cost(usage_before, usage_after);
    if required > attached_deposit {
        StorageCharge::Short { required: required as u128 }
    } else if attached_deposit - required > 1 {
        StorageCharge::Covered { refund: Some((attached_deposit - required) as u128) }
    } else {
        StorageCharge::Covered { refund: None }
    }
}

/// Settles the storage that a call took up, from the usage read before and
/// after it, against the deposit attached to it.
pub fn settle_storage(usage_before: u64, usage_after: u64, attached_deposit: u128) -> (charge:
    StorageCharge)
    ensures
        charge == charge_for(usage_before, usage_after, attached_deposit),
{
    let used: u64 = if usage_after > usage_before {
        usage_after - usage_before
    } else {
        0
    };
    let price = byte_cost();
    assert(used * 10_000_000_000_000_000_000 <= u128::MAX) by (nonlinear_arith)
        requires
            used <= u64::MAX,
    ;
    let required: u128 = (used as u128) * price;
    if required > attached_deposit {
        StorageCharge::Short { required }
    } else {
        let refund = attached_deposit - required;
        if refund > 1 {
            StorageCharge::Covered { refund: Some(refund) }
        } else {
            StorageCharge::Covered { refund: None }
        }
    }
}

} // verus!
