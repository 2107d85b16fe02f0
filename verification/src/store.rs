//! The asset store: the canonical map from fingerprint to asset record,
//! together with the count of assets ever created.
//!
//! Records are keyed internally by their creation nonce, which every
//! fingerprint embeds, so freshness of a new fingerprint is a consequence
//! of the strictly increasing counter rather than a probabilistic claim.

use std::collections::HashMap;
use vstd::prelude::*;

use crate::types::{AccountId, Balance, Fingerprint, Kitty};

verus! {

broadcast use vstd::std_specs::hash::group_hash_axioms;

/// The canonical asset map and the global creation counter.
pub struct AssetStore {
    kitties: HashMap<u64, Kitty>,
    count: u64,
}

impl AssetStore {
    /// The assets as a map keyed by fingerprint.
    pub closed spec fn assets(&self) -> Map<Fingerprint, Kitty> {
        Map::new(
            |fp: Fingerprint|
                self.kitties@.contains_key(fp.nonce) && self.kitties@[fp.nonce].fingerprint == fp,
            |fp: Fingerprint| self.kitties@[fp.nonce],
        )
    }

    /// The number of assets ever inserted.
    pub closed spec fn spec_count(&self) -> u64 {
        self.count
    }

    /// Well-formedness: every record sits under its own nonce, every nonce
    /// is below the counter, and the counter equals the number of records.
    pub closed spec fn wf(&self) -> bool {
        &&& forall|n: u64|
            #[trigger] self.kitties@.contains_key(n) ==> self.kitties@[n].fingerprint.nonce == n
                && n < self.count
        &&& self.kitties@.dom().len() == self.count
    }

    /// An empty store.
    pub fn new() -> (s: AssetStore)
        ensures
            s.wf(),
            s.assets() == Map::<Fingerprint, Kitty>::empty(),
            s.spec_count() == 0,
    {
        let s = AssetStore { kitties: HashMap::new(), count: 0 };
        proof {
            assert(s.kitties@.dom() =~= Set::<u64>::empty());
            assert(s.assets() =~= Map::<Fingerprint, Kitty>::empty());
        }
        s
    }

    /// The count of assets ever created.
    pub fn count(&self) -> (c: u64)
        ensures
            c == self.spec_count(),
    {
        self.count
    }

    /// Looks an asset up by fingerprint.
    pub fn get(&self, fp: Fingerprint) -> (r: Option<Kitty>)
        requires
            self.wf(),
        ensures
            r == if self.assets().contains_key(fp) {
                Some(self.assets()[fp])
            } else {
                None::<Kitty>
            },
    {
        match self.kitties.get(&fp.nonce) {
            Some(k) => {
                if k.fingerprint == fp {
                    Some(*k)
                } else {
                    None
                }
            },
            None => None,
        }
    }

    /// Inserts a newly created asset and advances the counter.  The record's
    /// nonce must be the current counter value, which makes its fingerprint
    /// provably fresh: a collision cannot happen.
    pub fn insert_new(&mut self, kitty: Kitty) -> (fp: Fingerprint)
        requires
            old(self).wf(),
            old(self).spec_count() < u64::MAX,
            kitty.fingerprint.nonce == old(self).spec_count(),
        ensures
            final(self).wf(),
            fp == kitty.fingerprint,
            !old(self).assets().contains_key(kitty.fingerprint),
            final(self).assets() == old(self).assets().insert(kitty.fingerprint, kitty),
            final(self).spec_count() == old(self).spec_count() + 1,
    {
        let fp = kitty.fingerprint;
        self.kitties.insert(fp.nonce, kitty);
        self.count = self.count + 1;
        proof {
            assert(!old(self).kitties@.contains_key(fp.nonce));
            assert(self.kitties@.dom() =~= old(self).kitties@.dom().insert(fp.nonce));
            assert(self.assets() =~= old(self).assets().insert(kitty.fingerprint, kitty));
        }
        fp
    }

    /// Rewrites the owner field of an existing asset.
    pub fn set_owner(&mut self, fp: Fingerprint, new_owner: AccountId)
        requires
            old(self).wf(),
            old(self).assets().contains_key(fp),
        ensures
            final(self).wf(),
            final(self).assets() == old(self).assets().insert(
                fp,
                (Kitty { owner: new_owner, ..old(self).assets()[fp] }),
            ),
            final(self).spec_count() == old(self).spec_count(),
    {
        let k = *self.kitties.get(&fp.nonce).unwrap();
        let updated = Kitty { owner: new_owner, ..k };
        self.kitties.insert(fp.nonce, updated);
        proof {
            assert(self.kitties@.dom() =~= old(self).kitties@.dom());
            assert(self.assets() =~= old(self).assets().insert(
                fp,
                (Kitty { owner: new_owner, ..old(self).assets()[fp] }),
            ));
        }
    }

    /// Rewrites the price field of an existing asset.
    pub fn set_price(&mut self, fp: Fingerprint, price: Option<Balance>)
        requires
            old(self).wf(),
            old(self).assets().contains_key(fp),
        ensures
            final(self).wf(),
            final(self).assets() == old(self).assets().insert(
                fp,
                (Kitty { price, ..old(self).assets()[fp] }),
            ),
            final(self).spec_count() == old(self).spec_count(),
    {
        let k = *self.kitties.get(&fp.nonce).unwrap();
        let updated = Kitty { price, ..k };
        self.kitties.insert(fp.nonce, updated);
        proof {
            assert(self.kitties@.dom() =~= old(self).kitties@.dom());
            assert(self.assets() =~= old(self).assets().insert(
                fp,
                (Kitty { price, ..old(self).assets()[fp] }),
            ));
        }
    }
}

} // verus!
