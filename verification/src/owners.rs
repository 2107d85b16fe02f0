//! The ownership index: for each account, the ordered sequence of
//! fingerprints it currently holds, bounded at `MAX_KITTY_OWNED`.
//!
//! Order is insertion order, and removal is stable: the relative order of
//! the remaining fingerprints is preserved, so index `[0]` always addresses
//! the oldest remaining held asset.

use std::collections::HashMap;
use vstd::prelude::*;

use crate::types::{AccountId, Fingerprint, MAX_KITTY_OWNED};

verus! {

broadcast use vstd::std_specs::hash::group_hash_axioms;

/// Per-account bounded sequences of held fingerprints.
pub struct OwnershipIndex {
    owned: HashMap<AccountId, Vec<Fingerprint>>,
}

impl OwnershipIndex {
    /// The sequence an account holds; an account never seen holds nothing.
    pub closed spec fn owned_of(&self, a: AccountId) -> Seq<Fingerprint> {
        if self.owned@.contains_key(a) {
            self.owned@[a]@
        } else {
            Seq::<Fingerprint>::empty()
        }
    }

    /// Well-formedness: no account holds more than the capacity.
    pub closed spec fn wf(&self) -> bool {
        forall|a: AccountId|
            #[trigger] self.owned@.contains_key(a) ==> self.owned@[a]@.len() <= MAX_KITTY_OWNED
    }

    /// An empty index.
    pub fn new() -> (s: OwnershipIndex)
        ensures
            s.wf(),
            forall|a: AccountId| s.owned_of(a) == Seq::<Fingerprint>::empty(),
    {
        OwnershipIndex { owned: HashMap::new() }
    }

    /// How many assets an account holds.
    pub fn count_of(&self, a: AccountId) -> (n: usize)
        ensures
            n == self.owned_of(a).len(),
    {
        match self.owned.get(&a) {
            Some(v) => v.len(),
            None => 0,
        }
    }

    /// A copy of the sequence an account holds, oldest first.
    pub fn owned_vec(&self, a: AccountId) -> (v: Vec<Fingerprint>)
        ensures
            v@ == self.owned_of(a),
    {
        match self.owned.get(&a) {
            Some(src) => {
                let mut out: Vec<Fingerprint> = Vec::new();
                let n = src.len();
                let mut i: usize = 0;
                while i < n
                    invariant
                        n == src.len(),
                        i <= n,
                        out@ == src@.subrange(0, i as int),
                    decreases n - i,
                {
                    out.push(src[i]);
                    proof {
                        assert(out@ =~= src@.subrange(0, i + 1 as int));
                    }
                    i = i + 1;
                }
                proof {
                    assert(out@ =~= src@);
                }
                out
            },
            None => Vec::new(),
        }
    }

    /// Appends a fingerprint to an account's sequence.
    pub fn append(&mut self, a: AccountId, fp: Fingerprint)
        requires
            old(self).wf(),
            old(self).owned_of(a).len() < MAX_KITTY_OWNED,
        ensures
            final(self).wf(),
            final(self).owned_of(a) == old(self).owned_of(a).push(fp),
            forall|b: AccountId| b != a ==> final(self).owned_of(b) == old(self).owned_of(b),
    {
        let mut v = match self.owned.remove(&a) {
            Some(v) => v,
            None => Vec::new(),
        };
        v.push(fp);
        self.owned.insert(a, v);
        proof {
            assert(final(self).owned_of(a) =~= old(self).owned_of(a).push(fp));
            assert forall|b: AccountId| b != a implies final(self).owned_of(b) == old(
                self,
            ).owned_of(b) by {
                assert(self.owned@.contains_key(b) == old(self).owned@.contains_key(b));
            }
        }
    }

    /// Removes the first (and, under the ledger's invariant, only)
    /// occurrence of a fingerprint from an account's sequence, preserving
    /// the order of the remaining elements.
    pub fn withdraw(&mut self, a: AccountId, fp: Fingerprint)
        requires
            old(self).wf(),
            old(self).owned_of(a).contains(fp),
        ensures
            final(self).wf(),
            final(self).owned_of(a) == old(self).owned_of(a).remove_value(fp),
            forall|b: AccountId| b != a ==> final(self).owned_of(b) == old(self).owned_of(b),
    {
        let mut v = self.owned.remove(&a).unwrap();
        let n = v.len();
        let mut i: usize = 0;
        while i < n && !(v[i] == fp)
            invariant
                n == v.len(),
                i <= n,
                v@.contains(fp),
                forall|j: int| 0 <= j < i ==> v@[j] != fp,
            decreases n - i,
        {
            i = i + 1;
        }
        proof {
            if i == n {
                let w = choose|w: int| 0 <= w < v@.len() && v@[w] == fp;
                assert(v@[w] != fp);
            }
        }
        v.remove(i);
        self.owned.insert(a, v);
        proof {
            let s = old(self).owned_of(a);
            s.index_of_first_ensures(fp);
            let k = s.index_of_first(fp).unwrap();
            assert(k == i) by {
                if k < i {
                    assert(s[k] != fp);
                } else if i < k {
                    assert(s[i as int] != fp);
                }
            }
            assert(final(self).owned_of(a) == s.remove_value(fp));
            assert forall|b: AccountId| b != a implies final(self).owned_of(b) == old(
                self,
            ).owned_of(b) by {
                assert(self.owned@.contains_key(b) == old(self).owned@.contains_key(b));
            }
        }
    }
}

} // verus!
