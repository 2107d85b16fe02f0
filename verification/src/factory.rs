//! The asset factory: derives fresh genomes from an entropy seed and child
//! genomes from two parents, and builds fingerprints from genome and nonce.
//!
//! Every derivation is a pure function of its arguments, so a ledger replay
//! from the same genesis seed reproduces the same assets exactly.

use vstd::prelude::*;

use crate::types::{AccountId, BlockNumber, Fingerprint, Genome};

verus! {

/// A 64-bit bit-mixing permutation (xor-shift and multiply rounds).
pub open spec fn spec_mix64(x: u64) -> u64 {
    let a = (x ^ (x >> 30u64)).wrapping_mul(0xbf58476d1ce4e5b9u64);
    let b = (a ^ (a >> 27u64)).wrapping_mul(0x94d049bb133111ebu64);
    b ^ (b >> 31u64)
}

/// The per-call seed: the previous entropy word mixed with the calling
/// account, the current block counter, and the current asset count, so that
/// repeated calls by one account in one block still draw distinct seeds.
pub open spec fn spec_derive_seed(
    entropy: u64,
    caller: AccountId,
    block: BlockNumber,
    count: u64,
) -> u64 {
    spec_mix64(spec_mix64(spec_mix64(spec_mix64(entropy) ^ caller) ^ block) ^ count)
}

/// The genome of a freshly created asset, drawn from a seed.
pub open spec fn spec_create_genome(seed: u64) -> Genome {
    Genome {
        hi: spec_mix64(seed ^ 0x243f6a8885a308d3u64),
        lo: spec_mix64(seed ^ 0x13198a2e03707344u64),
    }
}

/// The random recombination mask drawn for one breeding.
pub open spec fn spec_breed_mask(seed: u64) -> Genome {
    Genome {
        hi: spec_mix64(seed ^ 0xa4093822299f31d0u64),
        lo: spec_mix64(seed ^ 0x082efa98ec4e6c89u64),
    }
}

/// A child genome: for every bit position, the mask selects parent `a`'s
/// bit where the mask bit is set and parent `b`'s bit where it is clear.
pub open spec fn spec_recombine(a: Genome, b: Genome, mask: Genome) -> Genome {
    Genome {
        hi: (a.hi & mask.hi) | (b.hi & !mask.hi),
        lo: (a.lo & mask.lo) | (b.lo & !mask.lo),
    }
}

/// The genome of a bred asset: a bit-level recombination of both parents
/// under a mask drawn from the seed.
pub open spec fn spec_breed_genome(a: Genome, b: Genome, seed: u64) -> Genome {
    spec_recombine(a, b, spec_breed_mask(seed))
}

/// The fingerprint of an asset: the creation nonce (the asset counter at
/// creation time) plus a tag derived from the genome.
pub open spec fn spec_fingerprint_of(genome: Genome, nonce: u64) -> Fingerprint {
    Fingerprint { nonce, tag: spec_mix64(genome.hi ^ genome.lo) }
}

/// Runs the 64-bit mixing permutation.
pub fn mix64(x: u64) -> (r: u64)
    ensures
        r == spec_mix64(x),
{
    let a = (x ^ (x >> 30u64)).wrapping_mul(0xbf58476d1ce4e5b9u64);
    let b = (a ^ (a >> 27u64)).wrapping_mul(0x94d049bb133111ebu64);
    b ^ (b >> 31u64)
}

/// Draws the seed for one creation or breeding call.
pub fn derive_seed(entropy: u64, caller: AccountId, block: BlockNumber, count: u64) -> (r: u64)
    ensures
        r == spec_derive_seed(entropy, caller, block, count),
{
    mix64(mix64(mix64(mix64(entropy) ^ caller) ^ block) ^ count)
}

/// Produces the 16-byte genome of a freshly created asset.
pub fn create_genome(seed: u64) -> (g: Genome)
    ensures
        g == spec_create_genome(seed),
{
    Genome {
        hi: mix64(seed ^ 0x243f6a8885a308d3u64),
        lo: mix64(seed ^ 0x13198a2e03707344u64),
    }
}

/// Produces a child genome from two parents: each bit comes from parent
/// `a` or parent `b` as a seed-drawn mask selects.
pub fn breed_genome(a: Genome, b: Genome, seed: u64) -> (g: Genome)
    ensures
        g == spec_breed_genome(a, b, seed),
{
    let mask_hi = mix64(seed ^ 0xa4093822299f31d0u64);
    let mask_lo = mix64(seed ^ 0x082efa98ec4e6c89u64);
    Genome {
        hi: (a.hi & mask_hi) | (b.hi & !mask_hi),
        lo: (a.lo & mask_lo) | (b.lo & !mask_lo),
    }
}

/// Builds the fingerprint of a new asset from its genome and its nonce.
pub fn fingerprint_of(genome: Genome, nonce: u64) -> (fp: Fingerprint)
    ensures
        fp == spec_fingerprint_of(genome, nonce),
{
    Fingerprint { nonce, tag: mix64(genome.hi ^ genome.lo) }
}

} // verus!
