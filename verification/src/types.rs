//! Core data model: accounts, balances, genomes, fingerprints, and the
//! asset record itself.

use vstd::prelude::*;

verus! {

/// An authenticated account identifier, as supplied by the host.
pub type AccountId = u64;

/// A currency amount.
pub type Balance = u64;

/// A monotonically increasing block counter value.
pub type BlockNumber = u64;

/// The most assets one account may hold at the same time.
pub const MAX_KITTY_OWNED: usize = 20;

/// The amount reserved from an account when it creates a new asset.
pub const CREATION_STAKE: Balance = 10;

/// A 16-byte heritable trait payload, kept as two 64-bit halves so that
/// breeding is plain bit arithmetic.
#[derive(Clone, Copy, PartialEq, Eq, Structural, Debug)]
pub struct Genome {
    pub hi: u64,
    pub lo: u64,
}

/// The unique, immutable identifier of an asset.
///
/// The `nonce` is the value of the global asset counter at creation time,
/// so two fingerprints ever issued by one ledger never collide; the `tag`
/// is derived from the asset's genome.
#[derive(Clone, Copy, PartialEq, Eq, Structural, Hash, Debug)]
pub struct Fingerprint {
    pub nonce: u64,
    pub tag: u64,
}

/// One asset: its primary key, its genome, its current owner, and its
/// optional listing price (`None` means not for sale).
#[derive(Clone, Copy, PartialEq, Eq, Debug)]
pub struct Kitty {
    pub fingerprint: Fingerprint,
    pub genome: Genome,
    pub owner: AccountId,
    pub price: Option<Balance>,
}

} // verus!
