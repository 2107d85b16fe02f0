//! The discriminated failures of the public calls.  Every error is detected
//! during validation, before any mutation, and aborts the whole call.

use vstd::prelude::*;

verus! {

/// Failures of the asset-ledger calls.
#[derive(Clone, Copy, PartialEq, Eq, Structural, Debug)]
pub enum KittyError {
    /// The global asset counter cannot be incremented any further.
    KittyCntOverflow,
    /// The receiving (or creating) account already holds the maximum
    /// number of assets.
    ExceedMaxKittyOwned,
    /// A buyer may not buy an asset it already owns.
    BuyerIsKittyOwner,
    /// No asset with the given fingerprint exists.
    KittyNotExist,
    /// The caller is not the owner of the asset.
    NotKittyOwner,
    /// The asset has no listed price.
    KittyNotForSale,
    /// The bid is below the listed price.
    KittyBidPriceTooLow,
    /// The required currency cannot be reserved or transferred.
    NotEnoughBalance,
}

/// Failures of the claim-registry calls.
#[derive(Clone, Copy, PartialEq, Eq, Structural, Debug)]
pub enum ClaimError {
    /// The byte string has already been claimed.
    ProofAlreadyClaimed,
    /// The byte string has not been claimed, so it cannot be revoked.
    NoSuchProof,
    /// The claim belongs to another account, so the caller cannot revoke it.
    NotProofOwner,
    /// The claim does not exist, so it cannot be transferred.
    ClaimNotExist,
    /// The sender is not the claim owner.
    NotClaimOwner,
    /// The byte string is longer than the registry accepts.
    BadProof,
}

} // verus!
