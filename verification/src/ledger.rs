//! The ledger orchestrator: owns the asset store, the ownership index and
//! the bank, and exposes the five public calls.  Every call validates all
//! its preconditions before it mutates anything, so a failed call leaves
//! the ledger exactly as it was.
//!
//! The abstract state is `LedgerModel`; each call's exact outcome and
//! successor state are given by spec functions (`create_outcome`,
//! `create_post`, and so on), and the ledger invariant `inv` captures the
//! global laws: bounded collections, unique ownership, and an asset count
//! that equals the number of assets ever created.

use vstd::prelude::*;

use crate::bank::Bank;
use crate::errors::KittyError;
use crate::factory;
use crate::factory::{
    spec_breed_genome, spec_create_genome, spec_derive_seed, spec_fingerprint_of,
};
use crate::owners::OwnershipIndex;
use crate::store::AssetStore;
use crate::types::{
    AccountId, Balance, BlockNumber, Fingerprint, Kitty, CREATION_STAKE, MAX_KITTY_OWNED,
};

verus! {

/// The abstract ledger state: the asset map, the per-account sequences,
/// the balances, and the entropy and block words that drive creation.
#[verifier::ext_equal]
pub struct LedgerModel {
    pub asset_count: u64,
    pub assets: Map<Fingerprint, Kitty>,
    pub owned: Map<AccountId, Seq<Fingerprint>>,
    pub free: Map<AccountId, Balance>,
    pub reserved: Map<AccountId, Balance>,
    pub entropy: u64,
    pub block: BlockNumber,
}

/// The ledger invariant.
///
/// - no account holds more than `MAX_KITTY_OWNED` fingerprints;
/// - every held fingerprint is a known asset whose owner is the holder;
/// - every known asset is held by its owner;
/// - no account holds the same fingerprint twice;
/// - every asset record sits under its own fingerprint, whose nonce is
///   below the asset count;
/// - the asset count equals the number of assets.
pub open spec fn inv(s: LedgerModel) -> bool {
    &&& forall|a: AccountId| (#[trigger] s.owned[a]).len() <= MAX_KITTY_OWNED
    &&& forall|a: AccountId, i: int|
        0 <= i < s.owned[a].len() ==> s.assets.contains_key(#[trigger] s.owned[a][i])
            && s.assets[s.owned[a][i]].owner == a
    &&& forall|fp: Fingerprint| #[trigger]
        s.assets.contains_key(fp) ==> s.owned[s.assets[fp].owner].contains(fp)
    &&& forall|a: AccountId, i: int, j: int|
        #![trigger s.owned[a][i], s.owned[a][j]]
        0 <= i < j < s.owned[a].len() ==> s.owned[a][i] != s.owned[a][j]
    &&& forall|fp: Fingerprint| #[trigger]
        s.assets.contains_key(fp) ==> s.assets[fp].fingerprint == fp && fp.nonce < s.asset_count
    &&& s.assets.dom().finite()
    &&& s.assets.dom().len() == s.asset_count
}

/// The asset a `create_kitty` call by `caller` would mint in state `s`.
pub open spec fn created_kitty(s: LedgerModel, caller: AccountId) -> Kitty {
    let seed = spec_derive_seed(s.entropy, caller, s.block, s.asset_count);
    let genome = spec_create_genome(seed);
    Kitty {
        fingerprint: spec_fingerprint_of(genome, s.asset_count),
        genome,
        owner: caller,
        price: None,
    }
}

/// Exactly when `create_kitty` succeeds, and with which error it fails.
pub open spec fn create_outcome(s: LedgerModel, caller: AccountId) -> Result<(), KittyError> {
    if !(s.free[caller] >= CREATION_STAKE && s.reserved[caller] + CREATION_STAKE
        <= Balance::MAX) {
        Err(KittyError::NotEnoughBalance)
    } else if s.owned[caller].len() >= MAX_KITTY_OWNED {
        Err(KittyError::ExceedMaxKittyOwned)
    } else if s.asset_count == u64::MAX {
        Err(KittyError::KittyCntOverflow)
    } else {
        Ok(())
    }
}

/// The state after a successful `create_kitty`.
pub open spec fn create_post(s: LedgerModel, caller: AccountId) -> LedgerModel {
    let seed = spec_derive_seed(s.entropy, caller, s.block, s.asset_count);
    let k = created_kitty(s, caller);
    LedgerModel {
        asset_count: (s.asset_count + 1) as u64,
        assets: s.assets.insert(k.fingerprint, k),
        owned: s.owned.insert(caller, s.owned[caller].push(k.fingerprint)),
        free: s.free.insert(caller, (s.free[caller] - CREATION_STAKE) as Balance),
        reserved: s.reserved.insert(caller, (s.reserved[caller] + CREATION_STAKE) as Balance),
        entropy: seed,
        block: s.block,
    }
}

/// Exactly when `set_price` succeeds, and with which error it fails.
pub open spec fn set_price_outcome(s: LedgerModel, caller: AccountId, fp: Fingerprint) -> Result<
    (),
    KittyError,
> {
    if !s.assets.contains_key(fp) {
        Err(KittyError::KittyNotExist)
    } else if s.assets[fp].owner != caller {
        Err(KittyError::NotKittyOwner)
    } else {
        Ok(())
    }
}

/// The state after a successful `set_price`.
pub open spec fn set_price_post(
    s: LedgerModel,
    fp: Fingerprint,
    price: Option<Balance>,
) -> LedgerModel {
    LedgerModel { assets: s.assets.insert(fp, (Kitty { price, ..s.assets[fp] })), ..s }
}

/// The ownership sequences after `fp` moves from `from` to `to`: a stable
/// removal from `from`'s sequence, then an append to `to`'s.
pub open spec fn move_fingerprint(
    owned: Map<AccountId, Seq<Fingerprint>>,
    from: AccountId,
    to: AccountId,
    fp: Fingerprint,
) -> Map<AccountId, Seq<Fingerprint>> {
    let removed = owned.insert(from, owned[from].remove_value(fp));
    removed.insert(to, removed[to].push(fp))
}

/// Exactly when `transfer` succeeds, and with which error it fails.
pub open spec fn transfer_outcome(
    s: LedgerModel,
    caller: AccountId,
    to: AccountId,
    fp: Fingerprint,
) -> Result<(), KittyError> {
    if !s.assets.contains_key(fp) {
        Err(KittyError::KittyNotExist)
    } else if s.assets[fp].owner != caller {
        Err(KittyError::NotKittyOwner)
    } else if s.owned[to].len() >= MAX_KITTY_OWNED {
        Err(KittyError::ExceedMaxKittyOwned)
    } else {
        Ok(())
    }
}

/// The state after a successful `transfer`: ownership moves, the price is
/// left as it was.
pub open spec fn transfer_post(
    s: LedgerModel,
    caller: AccountId,
    to: AccountId,
    fp: Fingerprint,
) -> LedgerModel {
    LedgerModel {
        assets: s.assets.insert(fp, (Kitty { owner: to, ..s.assets[fp] })),
        owned: move_fingerprint(s.owned, caller, to, fp),
        ..s
    }
}

/// Exactly when `buy_kitty` succeeds, and with which error it fails.
pub open spec fn buy_outcome(
    s: LedgerModel,
    caller: AccountId,
    fp: Fingerprint,
    bid: Balance,
) -> Result<(), KittyError> {
    if !s.assets.contains_key(fp) {
        Err(KittyError::KittyNotExist)
    } else if s.assets[fp].price is None {
        Err(KittyError::KittyNotForSale)
    } else if s.assets[fp].owner == caller {
        Err(KittyError::BuyerIsKittyOwner)
    } else if bid < s.assets[fp].price.unwrap() {
        Err(KittyError::KittyBidPriceTooLow)
    } else if !(s.free[caller] >= s.assets[fp].price.unwrap() && s.free[s.assets[fp].owner]
        + s.assets[fp].price.unwrap() <= Balance::MAX) {
        Err(KittyError::NotEnoughBalance)
    } else if s.owned[caller].len() >= MAX_KITTY_OWNED {
        Err(KittyError::ExceedMaxKittyOwned)
    } else {
        Ok(())
    }
}

/// The state after a successful `buy_kitty`: the listed price moves from
/// buyer to seller, ownership moves to the buyer, and the asset is
/// delisted.
pub open spec fn buy_post(s: LedgerModel, caller: AccountId, fp: Fingerprint) -> LedgerModel {
    let seller = s.assets[fp].owner;
    let price = s.assets[fp].price.unwrap();
    LedgerModel {
        assets: s.assets.insert(fp, (Kitty { owner: caller, price: None, ..s.assets[fp] })),
        owned: move_fingerprint(s.owned, seller, caller, fp),
        free: s.free.insert(seller, (s.free[seller] + price) as Balance).insert(
            caller,
            (s.free[caller] - price) as Balance,
        ),
        ..s
    }
}

/// The asset a `breed_kitty` call would mint in state `s`.
pub open spec fn bred_kitty(
    s: LedgerModel,
    caller: AccountId,
    fp1: Fingerprint,
    fp2: Fingerprint,
) -> Kitty {
    let seed = spec_derive_seed(s.entropy, caller, s.block, s.asset_count);
    let genome = spec_breed_genome(s.assets[fp1].genome, s.assets[fp2].genome, seed);
    Kitty {
        fingerprint: spec_fingerprint_of(genome, s.asset_count),
        genome,
        owner: caller,
        price: None,
    }
}

/// Exactly when `breed_kitty` succeeds, and with which error it fails.
pub open spec fn breed_outcome(
    s: LedgerModel,
    caller: AccountId,
    fp1: Fingerprint,
    fp2: Fingerprint,
) -> Result<(), KittyError> {
    if !s.assets.contains_key(fp1) || !s.assets.contains_key(fp2) {
        Err(KittyError::KittyNotExist)
    } else if s.assets[fp1].owner != caller || s.assets[fp2].owner != caller {
        Err(KittyError::NotKittyOwner)
    } else if s.owned[caller].len() >= MAX_KITTY_OWNED {
        Err(KittyError::ExceedMaxKittyOwned)
    } else if s.asset_count == u64::MAX {
        Err(KittyError::KittyCntOverflow)
    } else {
        Ok(())
    }
}

/// The state after a successful `breed_kitty`: a new asset owned by the
/// caller; the parents are unaffected.
pub open spec fn breed_post(
    s: LedgerModel,
    caller: AccountId,
    fp1: Fingerprint,
    fp2: Fingerprint,
) -> LedgerModel {
    let seed = spec_derive_seed(s.entropy, caller, s.block, s.asset_count);
    let k = bred_kitty(s, caller, fp1, fp2);
    LedgerModel {
        asset_count: (s.asset_count + 1) as u64,
        assets: s.assets.insert(k.fingerprint, k),
        owned: s.owned.insert(caller, s.owned[caller].push(k.fingerprint)),
        entropy: seed,
        ..s
    }
}

/// Stable removal of a fingerprint from a duplicate-free sequence: the
/// result is one shorter, no longer contains the fingerprint, keeps every
/// other element, and stays duplicate-free.
proof fn lemma_remove_value_props(s: Seq<Fingerprint>, fp: Fingerprint)
    requires
        s.contains(fp),
        forall|i: int, j: int|
            #![trigger s[i], s[j]]
            0 <= i < j < s.len() ==> s[i] != s[j],
    ensures
        s.remove_value(fp).len() == s.len() - 1,
        !s.remove_value(fp).contains(fp),
        forall|k: int|
            0 <= k < s.remove_value(fp).len() ==> s.contains(#[trigger] s.remove_value(fp)[k]),
        forall|x: Fingerprint| x != fp && s.contains(x) ==> s.remove_value(fp).contains(x),
        forall|i: int, j: int|
            #![trigger s.remove_value(fp)[i], s.remove_value(fp)[j]]
            0 <= i < j < s.remove_value(fp).len() ==> s.remove_value(fp)[i] != s.remove_value(
                fp,
            )[j],
{
    s.index_of_first_ensures(fp);
    let at = s.index_of_first(fp).unwrap();
    let r = s.remove_value(fp);
    s.remove_ensures(at);
    assert forall|k: int| 0 <= k < r.len() implies s.contains(#[trigger] r[k]) by {
        if k < at {
            assert(r[k] == s[k]);
        } else {
            assert(r[k] == s[k + 1]);
        }
    }
    assert forall|k: int| 0 <= k < r.len() implies r[k] != fp by {
        if k < at {
            assert(r[k] == s[k]);
            assert(s[k] != s[at]);
        } else {
            assert(r[k] == s[k + 1]);
            assert(s[at] != s[k + 1]);
        }
    }
    assert forall|x: Fingerprint| x != fp && s.contains(x) implies r.contains(x) by {
        let w = choose|w: int| 0 <= w < s.len() && s[w] == x;
        if w < at {
            assert(r[w] == x);
        } else {
            assert(w != at);
            assert(r[w - 1] == x);
        }
    }
    assert forall|i: int, j: int|
        #![trigger r[i], r[j]]
        0 <= i < j < r.len() implies r[i] != r[j] by {
        let si: int = if i < at {
            i
        } else {
            i + 1
        };
        let sj: int = if j < at {
            j
        } else {
            j + 1
        };
        assert(r[i] == s[si]);
        assert(r[j] == s[sj]);
        assert(si < sj);
    }
}

/// Appending a fresh fingerprint and then removing it restores the
/// sequence.
pub proof fn lemma_push_then_remove(s: Seq<Fingerprint>, fp: Fingerprint)
    requires
        !s.contains(fp),
    ensures
        s.push(fp).remove_value(fp) == s,
{
    let p = s.push(fp);
    p.index_of_first_ensures(fp);
    assert(p[s.len() as int] == fp);
    assert(p.contains(fp));
    let at = p.index_of_first(fp).unwrap();
    assert forall|j: int| 0 <= j < s.len() implies p[j] != fp by {
        assert(s[j] == p[j]);
        if s[j] == fp {
            assert(s.contains(fp));
        }
    }
    assert(at == s.len());
    assert(p.remove(at) =~= s);
}

/// Minting a fresh asset preserves the ledger invariant.
proof fn lemma_inv_mint(s: LedgerModel, t: LedgerModel, k: Kitty)
    requires
        inv(s),
        s.owned[k.owner].len() < MAX_KITTY_OWNED,
        s.asset_count < u64::MAX,
        k.fingerprint.nonce == s.asset_count,
        t.asset_count == s.asset_count + 1,
        t.assets == s.assets.insert(k.fingerprint, k),
        t.owned == s.owned.insert(k.owner, s.owned[k.owner].push(k.fingerprint)),
    ensures
        inv(t),
        !s.assets.contains_key(k.fingerprint),
{
    let fp = k.fingerprint;
    let who = k.owner;
    assert(!s.assets.contains_key(fp));
    assert forall|a: AccountId| !s.owned[a].contains(fp) by {
        if s.owned[a].contains(fp) {
            let w = choose|w: int| 0 <= w < s.owned[a].len() && s.owned[a][w] == fp;
            assert(s.assets.contains_key(s.owned[a][w]));
        }
    }
    assert forall|a: AccountId, i: int| 0 <= i < t.owned[a].len() implies t.assets.contains_key(
        #[trigger] t.owned[a][i],
    ) && t.assets[t.owned[a][i]].owner == a by {
        if a == who {
            if i < s.owned[who].len() {
                assert(t.owned[a][i] == s.owned[who][i]);
                assert(s.assets.contains_key(s.owned[who][i]));
                assert(s.owned[who][i] != fp);
            } else {
                assert(t.owned[a][i] == fp);
            }
        } else {
            assert(t.owned[a] == s.owned[a]);
            assert(s.assets.contains_key(s.owned[a][i]));
            assert(s.owned[a][i] != fp);
        }
    }
    assert forall|x: Fingerprint| #[trigger]
        t.assets.contains_key(x) implies t.owned[t.assets[x].owner].contains(x) by {
        if x == fp {
            assert(t.owned[who][s.owned[who].len() as int] == fp);
        } else {
            let o = s.assets[x].owner;
            assert(s.owned[o].contains(x));
            let w = choose|w: int| 0 <= w < s.owned[o].len() && s.owned[o][w] == x;
            if o == who {
                assert(t.owned[o][w] == x);
            } else {
                assert(t.owned[o] == s.owned[o]);
            }
        }
    }
    assert forall|a: AccountId, i: int, j: int|
        #![trigger t.owned[a][i], t.owned[a][j]]
        0 <= i < j < t.owned[a].len() implies t.owned[a][i] != t.owned[a][j] by {
        if a == who && j == s.owned[who].len() {
            assert(t.owned[a][i] == s.owned[who][i]);
            assert(s.owned[who][i] != fp);
        }
    }
    assert(t.assets.dom() =~= s.assets.dom().insert(fp));
}

/// Rewriting one record without changing its key or owner preserves the
/// ledger invariant.
proof fn lemma_inv_update_record(s: LedgerModel, t: LedgerModel, fp: Fingerprint, k: Kitty)
    requires
        inv(s),
        s.assets.contains_key(fp),
        k.fingerprint == fp,
        k.owner == s.assets[fp].owner,
        t.asset_count == s.asset_count,
        t.assets == s.assets.insert(fp, k),
        t.owned == s.owned,
    ensures
        inv(t),
{
    assert(t.assets.dom() =~= s.assets.dom());
}

/// Moving one fingerprint between two sequences preserves the ledger
/// invariant, provided the record's owner field moves with it.
proof fn lemma_inv_move(
    s: LedgerModel,
    t: LedgerModel,
    from: AccountId,
    to: AccountId,
    fp: Fingerprint,
    k: Kitty,
)
    requires
        inv(s),
        s.assets.contains_key(fp),
        s.assets[fp].owner == from,
        s.owned[to].len() < MAX_KITTY_OWNED,
        k.fingerprint == fp,
        k.owner == to,
        t.asset_count == s.asset_count,
        t.assets == s.assets.insert(fp, k),
        t.owned == move_fingerprint(s.owned, from, to, fp),
    ensures
        inv(t),
{
    let src = s.owned[from];
    assert(src.contains(fp));
    lemma_remove_value_props(src, fp);
    let rem = src.remove_value(fp);
    let mid = s.owned.insert(from, rem);
    assert(t.owned == mid.insert(to, mid[to].push(fp)));
    // what `to` held before the append
    let base = mid[to];
    if to != from {
        assert(base == s.owned[to]);
        assert(!s.owned[to].contains(fp)) by {
            if s.owned[to].contains(fp) {
                let w = choose|w: int| 0 <= w < s.owned[to].len() && s.owned[to][w] == fp;
                assert(s.assets[s.owned[to][w]].owner == to);
            }
        }
    }
    assert(!base.contains(fp));
    assert(base.len() < MAX_KITTY_OWNED);
    // capacity
    assert forall|a: AccountId| (#[trigger] t.owned[a]).len() <= MAX_KITTY_OWNED by {
        if a == to {
        } else if a == from {
            assert(t.owned[a] == rem);
        } else {
            assert(t.owned[a] == s.owned[a]);
        }
    }
    // held fingerprints are known assets with the right owner
    assert forall|a: AccountId, i: int| 0 <= i < t.owned[a].len() implies t.assets.contains_key(
        #[trigger] t.owned[a][i],
    ) && t.assets[t.owned[a][i]].owner == a by {
        if a == to && i == base.len() {
            assert(t.owned[a][i] == fp);
        } else {
            let x = t.owned[a][i];
            if a == to {
                assert(x == base[i]);
                if to == from {
                    assert(src.contains(x));
                    assert(x != fp);
                } else {
                    assert(x == s.owned[a][i]);
                }
            } else if a == from {
                assert(x == rem[i]);
                assert(src.contains(x));
                assert(x != fp);
            } else {
                assert(t.owned[a] == s.owned[a]);
                assert(x == s.owned[a][i]);
            }
            assert(s.assets.contains_key(x));
            assert(x != fp || a == to);
        }
    }
    // known assets are held by their owner
    assert forall|x: Fingerprint| #[trigger]
        t.assets.contains_key(x) implies t.owned[t.assets[x].owner].contains(x) by {
        if x == fp {
            assert(t.owned[to][base.len() as int] == fp);
        } else {
            let o = s.assets[x].owner;
            assert(s.owned[o].contains(x));
            if o == from {
                assert(rem.contains(x));
                if to == from {
                    let w = choose|w: int| 0 <= w < rem.len() && rem[w] == x;
                    assert(t.owned[o][w] == x);
                } else {
                    assert(t.owned[o] == rem);
                }
            } else if o == to {
                let w = choose|w: int| 0 <= w < s.owned[o].len() && s.owned[o][w] == x;
                assert(base[w] == x);
                assert(t.owned[o][w] == x);
            } else {
                assert(t.owned[o] == s.owned[o]);
            }
        }
    }
    // no duplicates
    assert forall|a: AccountId, i: int, j: int|
        #![trigger t.owned[a][i], t.owned[a][j]]
        0 <= i < j < t.owned[a].len() implies t.owned[a][i] != t.owned[a][j] by {
        if a == to {
            if j == base.len() {
                assert(t.owned[a][i] == base[i]);
                assert(!base.contains(fp));
                if base[i] == fp {
                    assert(base.contains(fp));
                }
            } else {
                assert(t.owned[a][i] == base[i]);
                assert(t.owned[a][j] == base[j]);
                if to == from {
                } else {
                    assert(base == s.owned[a]);
                }
            }
        } else if a == from {
            assert(t.owned[a][i] == rem[i]);
            assert(t.owned[a][j] == rem[j]);
        } else {
            assert(t.owned[a] == s.owned[a]);
        }
    }
    assert(t.assets.dom() =~= s.assets.dom());
}

/// The ledger: all state, and the five public calls.
pub struct Ledger {
    store: AssetStore,
    owners: OwnershipIndex,
    bank: Bank,
    entropy: u64,
    block: BlockNumber,
}

impl View for Ledger {
    type V = LedgerModel;

    closed spec fn view(&self) -> LedgerModel {
        LedgerModel {
            asset_count: self.store.spec_count(),
            assets: self.store.assets(),
            owned: Map::new(|a: AccountId| true, |a: AccountId| self.owners.owned_of(a)),
            free: Map::new(|a: AccountId| true, |a: AccountId| self.bank.free_of(a)),
            reserved: Map::new(|a: AccountId| true, |a: AccountId| self.bank.reserved_of(a)),
            entropy: self.entropy,
            block: self.block,
        }
    }
}

impl Ledger {
    /// Well-formedness: the components are well-formed and the abstract
    /// state satisfies the ledger invariant.
    pub closed spec fn wf(&self) -> bool {
        &&& self.store.wf()
        &&& self.owners.wf()
        &&& inv(self@)
    }

    /// The ledger invariant holds of every well-formed ledger.
    pub proof fn inv_holds(&self)
        requires
            self.wf(),
        ensures
            inv(self@),
    {
    }

    /// An empty ledger, seeded with the genesis entropy word, at block 1.
    pub fn new(genesis_entropy: u64) -> (l: Ledger)
        ensures
            l.wf(),
            l@.asset_count == 0,
            l@.assets == Map::<Fingerprint, Kitty>::empty(),
            forall|a: AccountId| l@.owned[a] == Seq::<Fingerprint>::empty(),
            forall|a: AccountId| l@.free[a] == 0 && l@.reserved[a] == 0,
            l@.entropy == genesis_entropy,
            l@.block == 1,
    {
        let l = Ledger {
            store: AssetStore::new(),
            owners: OwnershipIndex::new(),
            bank: Bank::new(),
            entropy: genesis_entropy,
            block: 1,
        };
        proof {
            assert(l@.assets.dom() =~= Set::<Fingerprint>::empty());
        }
        l
    }

    /// The count of assets ever created.
    pub fn kitty_cnt(&self) -> (c: u64)
        ensures
            c == self@.asset_count,
    {
        self.store.count()
    }

    /// The full record of one asset.
    pub fn kitties(&self, fp: Fingerprint) -> (r: Option<Kitty>)
        requires
            self.wf(),
        ensures
            r == if self@.assets.contains_key(fp) {
                Some(self@.assets[fp])
            } else {
                None::<Kitty>
            },
    {
        self.store.get(fp)
    }

    /// The fingerprints an account holds, oldest first.
    pub fn kitties_owned(&self, a: AccountId) -> (v: Vec<Fingerprint>)
        ensures
            v@ == self@.owned[a],
    {
        self.owners.owned_vec(a)
    }

    /// The freely transferable balance of an account.
    pub fn free_balance(&self, a: AccountId) -> (r: Balance)
        ensures
            r == self@.free[a],
    {
        self.bank.free_balance(a)
    }

    /// The reserved balance of an account.
    pub fn reserved_balance(&self, a: AccountId) -> (r: Balance)
        ensures
            r == self@.reserved[a],
    {
        self.bank.reserved_balance(a)
    }

    /// The current block counter.
    pub fn block_number(&self) -> (b: BlockNumber)
        ensures
            b == self@.block,
    {
        self.block
    }

    /// Advances the block counter by one.
    pub fn advance_block(&mut self)
        requires
            old(self).wf(),
            old(self)@.block < BlockNumber::MAX,
        ensures
            final(self).wf(),
            final(self)@ == (LedgerModel { block: (old(self)@.block + 1) as BlockNumber, ..old(
                self,
            )@ }),
    {
        self.block = self.block + 1;
        proof {
            assert(self@ =~~= (LedgerModel { block: (old(self)@.block + 1) as BlockNumber, ..old(
                self,
            )@ }));
        }
    }

    /// Grants an account new free balance (genesis endowment).
    pub fn endow(&mut self, a: AccountId, amount: Balance)
        requires
            old(self).wf(),
            old(self)@.free[a] + amount <= Balance::MAX,
        ensures
            final(self).wf(),
            final(self)@ == (LedgerModel {
                free: old(self)@.free.insert(a, (old(self)@.free[a] + amount) as Balance),
                ..old(self)@
            }),
    {
        self.bank.endow(a, amount);
        proof {
            assert(self@ =~~= (LedgerModel {
                free: old(self)@.free.insert(a, (old(self)@.free[a] + amount) as Balance),
                ..old(self)@
            }));
        }
    }

    /// Creates a new asset owned by the caller: reserves the creation
    /// stake, draws a genome from fresh entropy, and appends the new
    /// fingerprint to the caller's sequence.
    pub fn create_kitty(&mut self, caller: AccountId) -> (r: Result<(), KittyError>)
        requires
            old(self).wf(),
        ensures
            final(self).wf(),
            r == create_outcome(old(self)@, caller),
            r is Ok ==> final(self)@ == create_post(old(self)@, caller),
            r is Err ==> final(self)@ == old(self)@,
            final(self)@.asset_count >= old(self)@.asset_count,
    {
        if !self.bank.can_reserve(caller, CREATION_STAKE) {
            return Err(KittyError::NotEnoughBalance);
        }
        if self.owners.count_of(caller) >= MAX_KITTY_OWNED {
            return Err(KittyError::ExceedMaxKittyOwned);
        }
        let count = self.store.count();
        if count == u64::MAX {
            return Err(KittyError::KittyCntOverflow);
        }
        let seed = factory::derive_seed(self.entropy, caller, self.block, count);
        let genome = factory::create_genome(seed);
        let fingerprint = factory::fingerprint_of(genome, count);
        let kitty = Kitty { fingerprint, genome, owner: caller, price: None };
        proof {
            assert(kitty == created_kitty(old(self)@, caller));
            lemma_inv_mint(old(self)@, create_post(old(self)@, caller), kitty);
        }
        self.bank.reserve(caller, CREATION_STAKE);
        self.store.insert_new(kitty);
        self.owners.append(caller, fingerprint);
        self.entropy = seed;
        proof {
            assert(self@ =~~= create_post(old(self)@, caller));
        }
        Ok(())
    }

    /// Lists an asset at a price, or delists it with `None`.  Only the
    /// current owner may do so.
    pub fn set_price(
        &mut self,
        caller: AccountId,
        fp: Fingerprint,
        price: Option<Balance>,
    ) -> (r: Result<(), KittyError>)
        requires
            old(self).wf(),
        ensures
            final(self).wf(),
            r == set_price_outcome(old(self)@, caller, fp),
            r is Ok ==> final(self)@ == set_price_post(old(self)@, fp, price),
            r is Err ==> final(self)@ == old(self)@,
            final(self)@.asset_count >= old(self)@.asset_count,
    {
        let kitty = match self.store.get(fp) {
            Some(k) => k,
            None => {
                return Err(KittyError::KittyNotExist);
            },
        };
        if kitty.owner != caller {
            return Err(KittyError::NotKittyOwner);
        }
        proof {
            lemma_inv_update_record(
                old(self)@,
                set_price_post(old(self)@, fp, price),
                fp,
                (Kitty { price, ..old(self)@.assets[fp] }),
            );
        }
        self.store.set_price(fp, price);
        proof {
            assert(self@ =~~= set_price_post(old(self)@, fp, price));
        }
        Ok(())
    }

    /// Transfers an asset from the caller to another account.  The price
    /// is left unchanged: a transfer is not a sale.
    pub fn transfer(&mut self, caller: AccountId, to: AccountId, fp: Fingerprint) -> (r: Result<
        (),
        KittyError,
    >)
        requires
            old(self).wf(),
        ensures
            final(self).wf(),
            r == transfer_outcome(old(self)@, caller, to, fp),
            r is Ok ==> final(self)@ == transfer_post(old(self)@, caller, to, fp),
            r is Err ==> final(self)@ == old(self)@,
            final(self)@.asset_count >= old(self)@.asset_count,
    {
        let kitty = match self.store.get(fp) {
            Some(k) => k,
            None => {
                return Err(KittyError::KittyNotExist);
            },
        };
        if kitty.owner != caller {
            return Err(KittyError::NotKittyOwner);
        }
        if self.owners.count_of(to) >= MAX_KITTY_OWNED {
            return Err(KittyError::ExceedMaxKittyOwned);
        }
        proof {
            lemma_inv_move(
                old(self)@,
                transfer_post(old(self)@, caller, to, fp),
                caller,
                to,
                fp,
                (Kitty { owner: to, ..old(self)@.assets[fp] }),
            );
        }
        self.store.set_owner(fp, to);
        self.owners.withdraw(caller, fp);
        proof {
            if to == caller {
                lemma_remove_value_props(old(self)@.owned[caller], fp);
            }
        }
        self.owners.append(to, fp);
        proof {
            assert(self@ =~~= transfer_post(old(self)@, caller, to, fp));
        }
        Ok(())
    }

    /// Buys a listed asset.  The charged amount is the listed price — the
    /// bid is only a floor — and the asset is delisted on success.
    pub fn buy_kitty(&mut self, caller: AccountId, fp: Fingerprint, bid: Balance) -> (r: Result<
        (),
        KittyError,
    >)
        requires
            old(self).wf(),
        ensures
            final(self).wf(),
            r == buy_outcome(old(self)@, caller, fp, bid),
            r is Ok ==> final(self)@ == buy_post(old(self)@, caller, fp),
            r is Err ==> final(self)@ == old(self)@,
            final(self)@.asset_count >= old(self)@.asset_count,
    {
        let kitty = match self.store.get(fp) {
            Some(k) => k,
            None => {
                return Err(KittyError::KittyNotExist);
            },
        };
        let price = match kitty.price {
            Some(p) => p,
            None => {
                return Err(KittyError::KittyNotForSale);
            },
        };
        if kitty.owner == caller {
            return Err(KittyError::BuyerIsKittyOwner);
        }
        if bid < price {
            return Err(KittyError::KittyBidPriceTooLow);
        }
        if !self.bank.can_transfer(caller, kitty.owner, price) {
            return Err(KittyError::NotEnoughBalance);
        }
        if self.owners.count_of(caller) >= MAX_KITTY_OWNED {
            return Err(KittyError::ExceedMaxKittyOwned);
        }
        proof {
            lemma_inv_move(
                old(self)@,
                buy_post(old(self)@, caller, fp),
                kitty.owner,
                caller,
                fp,
                (Kitty { owner: caller, price: None, ..old(self)@.assets[fp] }),
            );
        }
        self.bank.transfer_balance(caller, kitty.owner, price);
        self.store.set_owner(fp, caller);
        self.store.set_price(fp, None);
        self.owners.withdraw(kitty.owner, fp);
        self.owners.append(caller, fp);
        proof {
            assert(self@.assets =~~= buy_post(old(self)@, caller, fp).assets);
            assert(self@ =~~= buy_post(old(self)@, caller, fp));
        }
        Ok(())
    }

    /// Breeds a new asset from two parents the caller owns.  The child's
    /// genome recombines both parents' bits under a fresh mask; the
    /// parents are unaffected.
    pub fn breed_kitty(&mut self, caller: AccountId, fp1: Fingerprint, fp2: Fingerprint) -> (r:
        Result<(), KittyError>)
        requires
            old(self).wf(),
        ensures
            final(self).wf(),
            r == breed_outcome(old(self)@, caller, fp1, fp2),
            r is Ok ==> final(self)@ == breed_post(old(self)@, caller, fp1, fp2),
            r is Err ==> final(self)@ == old(self)@,
            final(self)@.asset_count >= old(self)@.asset_count,
    {
        let parent1 = match self.store.get(fp1) {
            Some(k) => k,
            None => {
                return Err(KittyError::KittyNotExist);
            },
        };
        let parent2 = match self.store.get(fp2) {
            Some(k) => k,
            None => {
                return Err(KittyError::KittyNotExist);
            },
        };
        if parent1.owner != caller || parent2.owner != caller {
            return Err(KittyError::NotKittyOwner);
        }
        if self.owners.count_of(caller) >= MAX_KITTY_OWNED {
            return Err(KittyError::ExceedMaxKittyOwned);
        }
        let count = self.store.count();
        if count == u64::MAX {
            return Err(KittyError::KittyCntOverflow);
        }
        let seed = factory::derive_seed(self.entropy, caller, self.block, count);
        let genome = factory::breed_genome(parent1.genome, parent2.genome, seed);
        let fingerprint = factory::fingerprint_of(genome, count);
        let child = Kitty { fingerprint, genome, owner: caller, price: None };
        proof {
            assert(child == bred_kitty(old(self)@, caller, fp1, fp2));
            lemma_inv_mint(old(self)@, breed_post(old(self)@, caller, fp1, fp2), child);
        }
        self.store.insert_new(child);
        self.owners.append(caller, fingerprint);
        self.entropy = seed;
        proof {
            assert(self@ =~~= breed_post(old(self)@, caller, fp1, fp2));
        }
        Ok(())
    }
}

/// No account ever holds more than `MAX_KITTY_OWNED` assets.
pub proof fn lemma_capacity_bound(s: LedgerModel, a: AccountId)
    requires
        inv(s),
    ensures
        s.owned[a].len() <= MAX_KITTY_OWNED,
{
}

/// Every known asset is held by exactly one account — its owner — and
/// appears exactly once in that account's sequence.
pub proof fn lemma_unique_ownership(s: LedgerModel, fp: Fingerprint)
    requires
        inv(s),
        s.assets.contains_key(fp),
    ensures
        s.owned[s.assets[fp].owner].contains(fp),
        forall|b: AccountId| b != s.assets[fp].owner ==> !s.owned[b].contains(fp),
        forall|i: int, j: int|
            0 <= i < s.owned[s.assets[fp].owner].len() && 0 <= j < s.owned[s.assets[fp].owner].len()
                && s.owned[s.assets[fp].owner][i] == fp && s.owned[s.assets[fp].owner][j] == fp
                ==> i == j,
{
    let o = s.assets[fp].owner;
    assert forall|b: AccountId| b != o implies !s.owned[b].contains(fp) by {
        if s.owned[b].contains(fp) {
            let w = choose|w: int| 0 <= w < s.owned[b].len() && s.owned[b][w] == fp;
            assert(s.assets[s.owned[b][w]].owner == b);
        }
    }
    assert forall|i: int, j: int|
        0 <= i < s.owned[o].len() && 0 <= j < s.owned[o].len() && s.owned[o][i] == fp
            && s.owned[o][j] == fp implies i == j by {
        if i < j {
            assert(s.owned[o][i] != s.owned[o][j]);
        } else if j < i {
            assert(s.owned[o][j] != s.owned[o][i]);
        }
    }
}

/// The asset count equals the number of assets ever inserted (assets are
/// never removed, so that is the size of the asset map).
pub proof fn lemma_count_is_total_inserted(s: LedgerModel)
    requires
        inv(s),
    ensures
        s.assets.dom().finite(),
        s.assets.dom().len() == s.asset_count,
{
}

/// Listing at the same price twice is the same as listing once: the
/// second call succeeds and leaves the state exactly as the first left
/// it.
pub proof fn lemma_set_price_idempotent(
    s: LedgerModel,
    caller: AccountId,
    fp: Fingerprint,
    price: Option<Balance>,
)
    requires
        set_price_outcome(s, caller, fp) is Ok,
    ensures
        set_price_outcome(set_price_post(s, fp, price), caller, fp) is Ok,
        set_price_post(set_price_post(s, fp, price), fp, price) == set_price_post(s, fp, price),
{
    let s1 = set_price_post(s, fp, price);
    assert(s1.assets[fp] == (Kitty { price, ..s.assets[fp] }));
    assert(set_price_post(s1, fp, price) =~~= s1);
}

/// Creating an asset and at once transferring it to another account hands
/// that account the very fingerprint just minted, removes it from the
/// creator's sequence (restoring it exactly), and leaves the price `None`.
pub proof fn lemma_create_then_transfer(s: LedgerModel, a: AccountId, b: AccountId)
    requires
        inv(s),
        create_outcome(s, a) is Ok,
        b != a,
        s.owned[b].len() < MAX_KITTY_OWNED,
    ensures
        ({
            let s1 = create_post(s, a);
            let fp = created_kitty(s, a).fingerprint;
            let s2 = transfer_post(s1, a, b, fp);
            &&& transfer_outcome(s1, a, b, fp) is Ok
            &&& s2.assets.contains_key(fp)
            &&& s2.assets[fp].owner == b
            &&& s2.assets[fp].price is None
            &&& s2.assets[fp].genome == created_kitty(s, a).genome
            &&& s2.owned[a] == s.owned[a]
            &&& s2.owned[b] == s.owned[b].push(fp)
        }),
{
    let s1 = create_post(s, a);
    let k = created_kitty(s, a);
    let fp = k.fingerprint;
    lemma_inv_mint(s, s1, k);
    assert(!s.owned[a].contains(fp)) by {
        if s.owned[a].contains(fp) {
            let w = choose|w: int| 0 <= w < s.owned[a].len() && s.owned[a][w] == fp;
            assert(s.assets.contains_key(s.owned[a][w]));
        }
    }
    assert(s1.owned[b] == s.owned[b]);
    assert(s1.owned[a] == s.owned[a].push(fp));
    lemma_push_then_remove(s.owned[a], fp);
    let s2 = transfer_post(s1, a, b, fp);
    assert(s2.owned[a] == s.owned[a]);
    assert(s2.owned[b] == s.owned[b].push(fp));
}

} // verus!
