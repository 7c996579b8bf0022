//! Issuance and redemption of index shares over a basket of constituent assets.
//!
//! A deposit of the base asset is charged its fees, split over the basket by
//! weight, swapped at an exchange venue and answered with freshly minted
//! shares; a redemption runs the other way. Every step that leaves the
//! contract is a remote call that may fail, so both directions are state
//! machines: each transition takes the outcome of the one call that was
//! pending and names the calls to make next.

pub mod account;
pub mod error;
pub mod allocation;
pub mod calls;
pub mod contract;
pub mod fees;
pub mod issuance;
pub mod laws;
pub mod redemption;
pub mod shares;
pub mod storage;
pub mod wide;
