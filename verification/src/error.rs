//! The ways in which a request can fail.

use vstd::prelude::*;

verus! {

/// Why a request was refused or a saga did not complete.
#[derive(Clone, Copy, Debug, PartialEq, Eq, Structural)]
pub enum SagaError {
    /// The allocation names an asset twice, its lists differ in length, or the
    /// caller may not change it.
    InvalidAllocation,
    /// The asset is not part of the basket.
    UnknownAsset,
    /// An amount does not fit in 128 bits, or a price is zero.
    ArithmeticOverflow,
    /// The deposit is below the minimum investment.
    BelowMinimum,
    /// The caller holds fewer shares than it asks to redeem.
    InsufficientShares,
    /// The ledger holds fewer shares than are to be burned.
    InsufficientBalance,
    /// The caller is not the administrator.
    Unauthorized,
    /// A remote call failed.
    VenueCallFailed,
    /// The refund after a failed exchange could not be fetched from the venue.
    CompensationFailed,
}

/// The words for an error.
pub open spec fn error_text(error: SagaError) -> Seq<char> {
    match error {
        SagaError::InvalidAllocation => "The token allocation is not valid"@,
        SagaError::UnknownAsset => "The token is not part of the allocation"@,
        SagaError::ArithmeticOverflow => "An amount does not fit in 128 bits"@,
        SagaError::BelowMinimum => "Attached amount is less then Minimum amount"@,
        SagaError::InsufficientShares => "Insufficient Index token"@,
        SagaError::InsufficientBalance => "Balance Insufficient"@,
        SagaError::Unauthorized => "Only Contract owner can do this"@,
        SagaError::VenueCallFailed => "There was a error while making exchange"@,
        SagaError::CompensationFailed => "The refund could not be withdrawn from the exchange"@,
    }
}

impl SagaError {
    /// What to tell the caller.
    pub fn message(&self) -> (words: &'static str)
        ensures
            words@ == error_text(*self),
    {
        match self {
            SagaError::InvalidAllocation => "The token allocation is not valid",
            SagaError::UnknownAsset => "The token is not part of the allocation",
            SagaError::ArithmeticOverflow => "An amount does not fit in 128 bits",
            SagaError::BelowMinimum => "Attached amount is less then Minimum amount",
            SagaError::InsufficientShares => "Insufficient Index token",
            SagaError::InsufficientBalance => "Balance Insufficient",
            SagaError::Unauthorized => "Only Contract owner can do this",
            SagaError::VenueCallFailed => "There was a error while making exchange",
            SagaError::CompensationFailed => "The refund could not be withdrawn from the exchange",
        }
    }
}

} // verus!
