//! The claim registry: records a byte-string claim against an owner and
//! the block number at which it was recorded, lets the owner revoke it,
//! and lets the owner hand it to another account.
//!
//! A registry accepts claims only up to a fixed byte length, and holds at
//! most one record per byte string.

use vstd::prelude::*;

use crate::errors::ClaimError;
use crate::types::{AccountId, BlockNumber};

verus! {

/// One recorded claim.
pub struct ClaimEntry {
    pub bytes: Vec<u8>,
    pub owner: AccountId,
    pub block: BlockNumber,
}

/// Keys are pairwise distinct.
pub open spec fn unique_keys(s: Seq<ClaimEntry>) -> bool {
    forall|i: int, j: int|
        #![trigger s[i].bytes, s[j].bytes]
        0 <= i < j < s.len() ==> s[i].bytes@ != s[j].bytes@
}

/// The record stored for a byte string, if any.
pub open spec fn claims_at(s: Seq<ClaimEntry>, k: Seq<u8>) -> Option<(AccountId, BlockNumber)> {
    if exists|i: int| 0 <= i < s.len() && s[i].bytes@ == k {
        let i = choose|i: int| 0 <= i < s.len() && s[i].bytes@ == k;
        Some((s[i].owner, s[i].block))
    } else {
        None
    }
}

/// Under unique keys, the record at index `i` is what lookup by its key
/// returns.
proof fn lemma_claims_at_index(s: Seq<ClaimEntry>, i: int)
    requires
        unique_keys(s),
        0 <= i < s.len(),
    ensures
        claims_at(s, s[i].bytes@) == Some((s[i].owner, s[i].block)),
{
    let k = s[i].bytes@;
    assert(s[i].bytes@ == k);
    let j = choose|j: int| 0 <= j < s.len() && s[j].bytes@ == k;
    if j < i {
        assert(s[j].bytes@ != s[i].bytes@);
    } else if i < j {
        assert(s[i].bytes@ != s[j].bytes@);
    }
}

/// Appending a record with a fresh key adds exactly that record.
proof fn lemma_claims_push(s: Seq<ClaimEntry>, e: ClaimEntry)
    requires
        unique_keys(s),
        claims_at(s, e.bytes@) is None,
    ensures
        unique_keys(s.push(e)),
        claims_at(s.push(e), e.bytes@) == Some((e.owner, e.block)),
        forall|k: Seq<u8>| k != e.bytes@ ==> #[trigger] claims_at(s.push(e), k) == claims_at(s, k),
{
    let p = s.push(e);
    assert forall|i: int| 0 <= i < s.len() implies s[i].bytes@ != e.bytes@ by {
        if s[i].bytes@ == e.bytes@ {
            assert(claims_at(s, e.bytes@) is Some);
        }
    }
    assert(unique_keys(p)) by {
        assert forall|i: int, j: int|
            #![trigger p[i].bytes, p[j].bytes]
            0 <= i < j < p.len() implies p[i].bytes@ != p[j].bytes@ by {
            if j == s.len() {
                assert(p[i] == s[i]);
            } else {
                assert(p[i] == s[i]);
                assert(p[j] == s[j]);
            }
        }
    }
    assert(p[s.len() as int] == e);
    lemma_claims_at_index(p, s.len() as int);
    assert forall|k: Seq<u8>| k != e.bytes@ implies #[trigger] claims_at(p, k) == claims_at(
        s,
        k,
    ) by {
        if exists|i: int| 0 <= i < s.len() && s[i].bytes@ == k {
            let i = choose|i: int| 0 <= i < s.len() && s[i].bytes@ == k;
            lemma_claims_at_index(s, i);
            assert(p[i] == s[i]);
            lemma_claims_at_index(p, i);
        } else {
            if exists|i: int| 0 <= i < p.len() && p[i].bytes@ == k {
                let i = choose|i: int| 0 <= i < p.len() && p[i].bytes@ == k;
                assert(i != s.len());
                assert(p[i] == s[i]);
            }
        }
    }
}

/// Removing the record at index `i` removes exactly its key.
proof fn lemma_claims_remove(s: Seq<ClaimEntry>, i: int)
    requires
        unique_keys(s),
        0 <= i < s.len(),
    ensures
        unique_keys(s.remove(i)),
        claims_at(s.remove(i), s[i].bytes@) is None,
        forall|k: Seq<u8>| k != s[i].bytes@ ==> #[trigger] claims_at(s.remove(i), k) == claims_at(
            s,
            k,
        ),
{
    let r = s.remove(i);
    s.remove_ensures(i);
    assert forall|j: int| 0 <= j < r.len() implies r[j] == s[if j < i {
        j
    } else {
        j + 1
    }] by {}
    assert(unique_keys(r)) by {
        assert forall|x: int, y: int|
            #![trigger r[x].bytes, r[y].bytes]
            0 <= x < y < r.len() implies r[x].bytes@ != r[y].bytes@ by {
            let sx: int = if x < i {
                x
            } else {
                x + 1
            };
            let sy: int = if y < i {
                y
            } else {
                y + 1
            };
            assert(r[x] == s[sx]);
            assert(r[y] == s[sy]);
            assert(sx < sy);
        }
    }
    assert(claims_at(r, s[i].bytes@) is None) by {
        if exists|j: int| 0 <= j < r.len() && r[j].bytes@ == s[i].bytes@ {
            let j = choose|j: int| 0 <= j < r.len() && r[j].bytes@ == s[i].bytes@;
            let sj: int = if j < i {
                j
            } else {
                j + 1
            };
            assert(r[j] == s[sj]);
            assert(sj != i);
            if sj < i {
                assert(s[sj].bytes@ != s[i].bytes@);
            } else {
                assert(s[i].bytes@ != s[sj].bytes@);
            }
        }
    }
    assert forall|k: Seq<u8>| k != s[i].bytes@ implies #[trigger] claims_at(r, k) == claims_at(
        s,
        k,
    ) by {
        if exists|j: int| 0 <= j < s.len() && s[j].bytes@ == k {
            let j = choose|j: int| 0 <= j < s.len() && s[j].bytes@ == k;
            lemma_claims_at_index(s, j);
            assert(j != i);
            let rj: int = if j < i {
                j
            } else {
                j - 1
            };
            assert(r[rj] == s[j]);
            lemma_claims_at_index(r, rj);
        } else {
            if exists|j: int| 0 <= j < r.len() && r[j].bytes@ == k {
                let j = choose|j: int| 0 <= j < r.len() && r[j].bytes@ == k;
                let sj: int = if j < i {
                    j
                } else {
                    j + 1
                };
                assert(r[j] == s[sj]);
            }
        }
    }
}

/// Byte-for-byte equality of two byte vectors.
fn bytes_equal(a: &Vec<u8>, b: &Vec<u8>) -> (r: bool)
    ensures
        r == (a@ == b@),
{
    if a.len() != b.len() {
        assert(a@ != b@) by {
            assert(a@.len() != b@.len());
        }
        return false;
    }
    let n = a.len();
    let mut i: usize = 0;
    while i < n
        invariant
            n == a.len() == b.len(),
            i <= n,
            forall|j: int| 0 <= j < i ==> a@[j] == b@[j],
        decreases n - i,
    {
        if a[i] != b[i] {
            assert(a@ != b@) by {
                assert(a@[i as int] != b@[i as int]);
            }
            return false;
        }
        i = i + 1;
    }
    proof {
        assert(a@ =~= b@);
    }
    true
}

/// The registry of claims, bounded to byte strings of a fixed maximum
/// length.
pub struct ClaimRegistry {
    max_len: usize,
    entries: Vec<ClaimEntry>,
}

impl ClaimRegistry {
    /// The record stored for a byte string, if any.
    pub closed spec fn claim_at(&self, k: Seq<u8>) -> Option<(AccountId, BlockNumber)> {
        claims_at(self.entries@, k)
    }

    /// The longest byte string the registry accepts.
    pub closed spec fn spec_max_len(&self) -> usize {
        self.max_len
    }

    /// Well-formedness: keys are unique and within the length bound.
    pub closed spec fn wf(&self) -> bool {
        &&& unique_keys(self.entries@)
        &&& forall|i: int|
            0 <= i < self.entries@.len() ==> (#[trigger] self.entries@[i]).bytes@.len()
                <= self.max_len
    }

    /// An empty registry accepting byte strings up to `max_len` bytes.
    pub fn new(max_len: usize) -> (s: ClaimRegistry)
        ensures
            s.wf(),
            s.spec_max_len() == max_len,
            forall|k: Seq<u8>| s.claim_at(k) is None,
    {
        ClaimRegistry { max_len, entries: Vec::new() }
    }

    /// The index of the record holding this byte string, if any.
    fn find(&self, key: &Vec<u8>) -> (r: Option<usize>)
        requires
            self.wf(),
        ensures
            match r {
                Some(i) => i < self.entries@.len() && self.entries@[i as int].bytes@ == key@
                    && self.claim_at(key@) == Some(
                    (self.entries@[i as int].owner, self.entries@[i as int].block),
                ),
                None => self.claim_at(key@) is None,
            },
    {
        let n = self.entries.len();
        let mut i: usize = 0;
        while i < n
            invariant
                self.wf(),
                n == self.entries@.len(),
                i <= n,
                forall|j: int| 0 <= j < i ==> (#[trigger] self.entries@[j]).bytes@ != key@,
            decreases n - i,
        {
            if bytes_equal(&self.entries[i].bytes, key) {
                proof {
                    lemma_claims_at_index(self.entries@, i as int);
                }
                return Some(i);
            }
            i = i + 1;
        }
        proof {
            if exists|j: int| 0 <= j < self.entries@.len() && self.entries@[j].bytes@ == key@ {
                let j = choose|j: int|
                    0 <= j < self.entries@.len() && self.entries@[j].bytes@ == key@;
                assert(self.entries@[j].bytes@ != key@);
            }
        }
        None
    }

    /// Whether a byte string has been claimed, and by whom.
    pub fn get_claim(&self, key: &Vec<u8>) -> (r: Option<(AccountId, BlockNumber)>)
        requires
            self.wf(),
        ensures
            r == self.claim_at(key@),
    {
        match self.find(key) {
            Some(i) => {
                let e = &self.entries[i];
                Some((e.owner, e.block))
            },
            None => None,
        }
    }

    /// Records a claim for the sender at the current block.  Fails if the
    /// byte string is already claimed, or if it is longer than the
    /// registry accepts.
    pub fn create_claim(
        &mut self,
        sender: AccountId,
        claim: &Vec<u8>,
        current_block: BlockNumber,
    ) -> (r: Result<(), ClaimError>)
        requires
            old(self).wf(),
        ensures
            final(self).wf(),
            final(self).spec_max_len() == old(self).spec_max_len(),
            r == if old(self).claim_at(claim@) is Some {
                Err::<(), ClaimError>(ClaimError::ProofAlreadyClaimed)
            } else if claim@.len() > old(self).spec_max_len() {
                Err::<(), ClaimError>(ClaimError::BadProof)
            } else {
                Ok::<(), ClaimError>(())
            },
            r is Ok ==> final(self).claim_at(claim@) == Some((sender, current_block)),
            r is Ok ==> forall|k: Seq<u8>|
                k != claim@ ==> #[trigger] final(self).claim_at(k) == old(self).claim_at(k),
            r is Err ==> *final(self) == *old(self),
    {
        if self.find(claim).is_some() {
            return Err(ClaimError::ProofAlreadyClaimed);
        }
        if claim.len() > self.max_len {
            return Err(ClaimError::BadProof);
        }
        let n = claim.len();
        let mut bytes: Vec<u8> = Vec::new();
        let mut i: usize = 0;
        while i < n
            invariant
                n == claim@.len(),
                i <= n,
                bytes@ == claim@.subrange(0, i as int),
            decreases n - i,
        {
            bytes.push(claim[i]);
            proof {
                assert(bytes@ =~= claim@.subrange(0, i + 1 as int));
            }
            i = i + 1;
        }
        proof {
            assert(bytes@ =~= claim@);
        }
        let entry = ClaimEntry { bytes, owner: sender, block: current_block };
        proof {
            lemma_claims_push(self.entries@, entry);
        }
        self.entries.push(entry);
        Ok(())
    }

    /// Removes a claim.  Fails if the byte string is not claimed, or if
    /// the sender is not the claim's owner.
    pub fn revoke_claim(&mut self, sender: AccountId, claim: &Vec<u8>) -> (r: Result<
        (),
        ClaimError,
    >)
        requires
            old(self).wf(),
        ensures
            final(self).wf(),
            final(self).spec_max_len() == old(self).spec_max_len(),
            r == if old(self).claim_at(claim@) is None {
                Err::<(), ClaimError>(ClaimError::NoSuchProof)
            } else if old(self).claim_at(claim@).unwrap().0 != sender {
                Err::<(), ClaimError>(ClaimError::NotProofOwner)
            } else {
                Ok::<(), ClaimError>(())
            },
            r is Ok ==> final(self).claim_at(claim@) is None,
            r is Ok ==> forall|k: Seq<u8>|
                k != claim@ ==> #[trigger] final(self).claim_at(k) == old(self).claim_at(k),
            r is Err ==> *final(self) == *old(self),
    {
        let i = match self.find(claim) {
            Some(i) => i,
            None => {
                return Err(ClaimError::NoSuchProof);
            },
        };
        if self.entries[i].owner != sender {
            return Err(ClaimError::NotProofOwner);
        }
        proof {
            lemma_claims_remove(self.entries@, i as int);
        }
        self.entries.remove(i);
        Ok(())
    }

    /// Hands a claim to another account, restamping it with the current
    /// block.  Fails if the byte string is not claimed, or if the sender
    /// is not the claim's owner.
    pub fn transfer_claim(
        &mut self,
        sender: AccountId,
        claim: &Vec<u8>,
        dest: AccountId,
        current_block: BlockNumber,
    ) -> (r: Result<(), ClaimError>)
        requires
            old(self).wf(),
        ensures
            final(self).wf(),
            final(self).spec_max_len() == old(self).spec_max_len(),
            r == if old(self).claim_at(claim@) is None {
                Err::<(), ClaimError>(ClaimError::ClaimNotExist)
            } else if old(self).claim_at(claim@).unwrap().0 != sender {
                Err::<(), ClaimError>(ClaimError::NotClaimOwner)
            } else {
                Ok::<(), ClaimError>(())
            },
            r is Ok ==> final(self).claim_at(claim@) == Some((dest, current_block)),
            r is Ok ==> forall|k: Seq<u8>|
                k != claim@ ==> #[trigger] final(self).claim_at(k) == old(self).claim_at(k),
            r is Err ==> *final(self) == *old(self),
    {
        let i = match self.find(claim) {
            Some(i) => i,
            None => {
                return Err(ClaimError::ClaimNotExist);
            },
        };
        if self.entries[i].owner != sender {
            return Err(ClaimError::NotClaimOwner);
        }
        proof {
            lemma_claims_remove(self.entries@, i as int);
        }
        let e = self.entries.remove(i);
        let entry = ClaimEntry { bytes: e.bytes, owner: dest, block: current_block };
        proof {
            lemma_claims_push(self.entries@, entry);
        }
        self.entries.push(entry);
        Ok(())
    }
}

} // verus!
