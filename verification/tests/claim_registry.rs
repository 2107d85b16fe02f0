use kitty_ledger::claims::ClaimRegistry;
use kitty_ledger::errors::ClaimError;

#[test]
fn create_claim_records_owner_and_block() {
    let mut r = ClaimRegistry::new(16);
    let claim = vec![1u8, 2, 3];
    assert_eq!(r.get_claim(&claim), None);
    assert_eq!(r.create_claim(1, &claim, 5), Ok(()));
    assert_eq!(r.get_claim(&claim), Some((1, 5)));
}

#[test]
fn create_claim_rejects_a_duplicate() {
    let mut r = ClaimRegistry::new(16);
    let claim = vec![1u8, 2, 3];
    assert_eq!(r.create_claim(1, &claim, 5), Ok(()));
    assert_eq!(r.create_claim(2, &claim, 6), Err(ClaimError::ProofAlreadyClaimed));
    // the original record stands
    assert_eq!(r.get_claim(&claim), Some((1, 5)));
}

#[test]
fn create_claim_rejects_an_overlong_proof() {
    let mut r = ClaimRegistry::new(4);
    let long = vec![9u8, 9, 9, 9, 9];
    assert_eq!(r.create_claim(1, &long, 5), Err(ClaimError::BadProof));
    assert_eq!(r.get_claim(&long), None);
    // a proof at exactly the limit is accepted
    let fits = vec![9u8, 9, 9, 9];
    assert_eq!(r.create_claim(1, &fits, 5), Ok(()));
}

#[test]
fn revoke_claim_removes_only_that_claim() {
    let mut r = ClaimRegistry::new(16);
    let first = vec![1u8, 2, 3];
    let second = vec![4u8, 5];
    assert_eq!(r.create_claim(1, &first, 5), Ok(()));
    assert_eq!(r.create_claim(1, &second, 6), Ok(()));
    assert_eq!(r.revoke_claim(1, &first), Ok(()));
    assert_eq!(r.get_claim(&first), None);
    assert_eq!(r.get_claim(&second), Some((1, 6)));
    // a revoked byte string can be claimed again
    assert_eq!(r.create_claim(2, &first, 9), Ok(()));
    assert_eq!(r.get_claim(&first), Some((2, 9)));
}

#[test]
fn revoke_claim_requires_an_existing_claim() {
    let mut r = ClaimRegistry::new(16);
    let claim = vec![1u8, 2, 3];
    assert_eq!(r.revoke_claim(1, &claim), Err(ClaimError::NoSuchProof));
}

#[test]
fn revoke_claim_requires_the_owner() {
    let mut r = ClaimRegistry::new(16);
    let claim = vec![1u8, 2, 3];
    assert_eq!(r.create_claim(1, &claim, 5), Ok(()));
    assert_eq!(r.revoke_claim(2, &claim), Err(ClaimError::NotProofOwner));
    assert_eq!(r.get_claim(&claim), Some((1, 5)));
}

#[test]
fn transfer_claim_hands_the_claim_over() {
    let mut r = ClaimRegistry::new(16);
    let claim = vec![1u8, 2, 3];
    assert_eq!(r.create_claim(1, &claim, 5), Ok(()));
    assert_eq!(r.transfer_claim(1, &claim, 3, 8), Ok(()));
    assert_eq!(r.get_claim(&claim), Some((3, 8)));
    // the old owner can no longer move it
    assert_eq!(r.transfer_claim(1, &claim, 1, 9), Err(ClaimError::NotClaimOwner));
}

#[test]
fn transfer_claim_requires_an_existing_claim() {
    let mut r = ClaimRegistry::new(16);
    let claim = vec![1u8, 2, 3];
    assert_eq!(r.transfer_claim(1, &claim, 3, 8), Err(ClaimError::ClaimNotExist));
}
