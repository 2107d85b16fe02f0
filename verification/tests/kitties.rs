use kitty_ledger::errors::KittyError;
use kitty_ledger::ledger::Ledger;

/// A fresh ledger with endowed accounts and one genesis kitty each for
/// accounts 1 and 2.
fn new_test_ext() -> Ledger {
    let mut l = Ledger::new(42);
    l.endow(1, 20);
    l.endow(2, 20);
    l.endow(3, 20);
    l.endow(4, 200);
    l.endow(10, 500);
    assert_eq!(l.create_kitty(1), Ok(()));
    assert_eq!(l.create_kitty(2), Ok(()));
    l
}

#[test]
fn should_build_genesis_kitties() {
    let l = new_test_ext();
    // Check we have 2 kitties, as specified
    assert_eq!(l.kitty_cnt(), 2);

    // Check owners own the correct amount of kitties
    let kitties_owned_by_1 = l.kitties_owned(1);
    assert_eq!(kitties_owned_by_1.len(), 1);

    let kitties_owned_by_2 = l.kitties_owned(2);
    assert_eq!(kitties_owned_by_2.len(), 1);

    // Check that kitties are owned correctly
    let kid1 = kitties_owned_by_1[0];
    let kitty1 = l.kitties(kid1).expect("Could have this kitty ID owned by acct 1");
    assert_eq!(kitty1.owner, 1);

    let kid2 = kitties_owned_by_2[0];
    let kitty2 = l.kitties(kid2).expect("Could have this kitty ID owned by acct 2");
    assert_eq!(kitty2.owner, 2);
}

#[test]
fn create_kitty_should_work() {
    let mut l = new_test_ext();
    // create a kitty with account #10.
    assert_eq!(l.create_kitty(10), Ok(()));

    // check that 3 kitties exists (together with the two from genesis)
    assert_eq!(l.kitty_cnt(), 3);

    // check that account #10 owns 1 kitty
    assert_eq!(l.kitties_owned(10).len(), 1);

    // check that some random account #5 does not own a kitty
    assert_eq!(l.kitties_owned(5).len(), 0);

    // check that this kitty is specifically owned by account #10
    let hash = l.kitties_owned(10)[0];
    let kitty = l.kitties(hash).expect("should found the kitty");
    assert_eq!(kitty.owner, 10);
    assert_eq!(kitty.price, None);
}

#[test]
fn create_kitty_failed_when_not_have_enough_balance() {
    let mut l = new_test_ext();
    // create a kitty with account #10.
    assert_eq!(l.create_kitty(10), Ok(()));

    // account #0 cannot create a kitty with not have enough balance to reserve.
    let cnt = l.kitty_cnt();
    assert_eq!(l.create_kitty(0), Err(KittyError::NotEnoughBalance));
    assert_eq!(l.kitty_cnt(), cnt);
}

#[test]
fn set_price_should_work() {
    let mut l = new_test_ext();
    // create a kitty with account #10.
    assert_eq!(l.create_kitty(10), Ok(()));

    let hash = l.kitties_owned(10)[0];
    let kitty = l.kitties(hash).expect("should found the kitty");
    assert_eq!(kitty.owner, 10);
    assert_eq!(kitty.price, None);

    assert_eq!(l.set_price(10, hash, Some(5)), Ok(()));

    let new_kitty = l.kitties(hash).expect("should found the kitty");
    assert_eq!(new_kitty.owner, 10);
    assert_eq!(new_kitty.price, Some(5));
}

#[test]
fn set_price_failed_with_not_kitty_owner() {
    let mut l = new_test_ext();
    // create a kitty with account #10.
    assert_eq!(l.create_kitty(10), Ok(()));

    let hash = l.kitties_owned(10)[0];
    let kitty = l.kitties(hash).expect("should found the kitty");
    assert_eq!(kitty.owner, 10);
    assert_eq!(kitty.price, None);

    assert_eq!(l.set_price(10, hash, Some(5)), Ok(()));

    assert_eq!(l.set_price(1, hash, Some(10)), Err(KittyError::NotKittyOwner));
    let unchanged = l.kitties(hash).expect("should found the kitty");
    assert_eq!(unchanged.price, Some(5));
}

#[test]
fn transfer_kitty_should_work() {
    let mut l = new_test_ext();
    // check that acct 10 own a kitty
    assert_eq!(l.create_kitty(10), Ok(()));
    assert_eq!(l.kitties_owned(10).len(), 1);
    let hash = l.kitties_owned(10)[0];

    // acct 10 send kitty to acct 3
    assert_eq!(l.transfer(10, 3, hash), Ok(()));

    // acct 10 now has nothing
    assert_eq!(l.kitties_owned(10).len(), 0);
    // but acct 3 does
    assert_eq!(l.kitties_owned(3).len(), 1);
    let new_hash = l.kitties_owned(3)[0];
    // and it has the same hash
    assert_eq!(hash, new_hash);
}

#[test]
fn transfer_non_owned_kitty_should_fail() {
    let mut l = new_test_ext();
    let hash = l.kitties_owned(1)[0];

    // account 9 cannot transfer a kitty with this hash.
    assert_eq!(l.transfer(9, 2, hash), Err(KittyError::NotKittyOwner));
}

#[test]
fn transfer_failed_with_capacity_exceeded() {
    let mut l = new_test_ext();
    // check that acct 10 own a kitty
    assert_eq!(l.create_kitty(10), Ok(()));
    assert_eq!(l.kitties_owned(10).len(), 1);
    let hash_1 = l.kitties_owned(10)[0];

    // acct 10 send kitty to acct 4
    assert_eq!(l.transfer(10, 4, hash_1), Ok(()));

    let mut index = 0;
    while index < 19 {
        assert_eq!(l.create_kitty(4), Ok(()));
        index = index + 1;
    }

    assert_eq!(l.kitties_owned(4).len(), 20);

    assert_eq!(l.create_kitty(10), Ok(()));
    assert_eq!(l.kitties_owned(10).len(), 1);
    let hash_2 = l.kitties_owned(10)[0];

    // acct 10 cannot transfer a kitty to the full acct 4.
    assert_eq!(l.transfer(10, 4, hash_2), Err(KittyError::ExceedMaxKittyOwned));
}

#[test]
fn buy_kitty_should_work() {
    let mut l = new_test_ext();
    // create a kitty with account #10.
    assert_eq!(l.create_kitty(10), Ok(()));

    let hash = l.kitties_owned(10)[0];
    let kitty = l.kitties(hash).expect("should found the kitty");
    assert_eq!(kitty.owner, 10);
    assert_eq!(kitty.price, None);

    assert_eq!(l.set_price(10, hash, Some(5)), Ok(()));

    let new_kitty = l.kitties(hash).expect("should found the kitty");
    assert_eq!(new_kitty.owner, 10);
    assert_eq!(new_kitty.price, Some(5));

    assert_eq!(l.kitties_owned(1).len(), 1);
    assert_eq!(l.buy_kitty(1, hash, 5), Ok(()));
    assert_eq!(l.kitties_owned(1).len(), 2);
}

#[test]
fn buy_kitty_failed_when_buyer_is_owner() {
    let mut l = new_test_ext();
    // create a kitty with account #10.
    assert_eq!(l.create_kitty(10), Ok(()));

    let hash = l.kitties_owned(10)[0];
    let kitty = l.kitties(hash).expect("should found the kitty");
    assert_eq!(kitty.owner, 10);
    assert_eq!(kitty.price, None);

    assert_eq!(l.set_price(10, hash, Some(5)), Ok(()));

    let new_kitty = l.kitties(hash).expect("should found the kitty");
    assert_eq!(new_kitty.owner, 10);
    assert_eq!(new_kitty.price, Some(5));

    assert_eq!(l.buy_kitty(10, hash, 5), Err(KittyError::BuyerIsKittyOwner));
}

#[test]
fn buy_kitty_failed_with_low_bid() {
    let mut l = new_test_ext();
    // create a kitty with account #10.
    assert_eq!(l.create_kitty(10), Ok(()));

    let hash = l.kitties_owned(10)[0];
    let kitty = l.kitties(hash).expect("should found the kitty");
    assert_eq!(kitty.owner, 10);
    assert_eq!(kitty.price, None);

    assert_eq!(l.set_price(10, hash, Some(5)), Ok(()));

    let new_kitty = l.kitties(hash).expect("should found the kitty");
    assert_eq!(new_kitty.owner, 10);
    assert_eq!(new_kitty.price, Some(5));

    assert_eq!(l.buy_kitty(1, hash, 3), Err(KittyError::KittyBidPriceTooLow));
}

#[test]
fn buy_kitty_failed_with_low_balance() {
    let mut l = new_test_ext();
    // create a kitty with account #10.
    assert_eq!(l.create_kitty(10), Ok(()));

    let hash = l.kitties_owned(10)[0];
    let kitty = l.kitties(hash).expect("should found the kitty");
    assert_eq!(kitty.owner, 10);
    assert_eq!(kitty.price, None);

    assert_eq!(l.set_price(10, hash, Some(20)), Ok(()));

    let new_kitty = l.kitties(hash).expect("should found the kitty");
    assert_eq!(new_kitty.owner, 10);
    assert_eq!(new_kitty.price, Some(20));

    // account #1 has only 10 free units left after its genesis creation.
    assert_eq!(l.buy_kitty(1, hash, 20), Err(KittyError::NotEnoughBalance));
}

#[test]
fn breed_kitty_should_work() {
    let mut l = new_test_ext();
    // create a kitty with account #10.
    assert_eq!(l.create_kitty(10), Ok(()));

    let hash_1 = l.kitties_owned(10)[0];
    let _kitty_1 = l.kitties(hash_1).expect("should found the kitty");

    // create another kitty with account #10.
    assert_eq!(l.create_kitty(10), Ok(()));

    let hash_2 = l.kitties_owned(10)[1];
    let _kitty_2 = l.kitties(hash_2).expect("should found the kitty");

    assert_eq!(l.breed_kitty(10, hash_1, hash_2), Ok(()));
}

#[test]
fn breed_kitty_failed_when_not_owner() {
    let mut l = new_test_ext();
    // create a kitty with account #10.
    assert_eq!(l.create_kitty(10), Ok(()));

    let hash_1 = l.kitties_owned(10)[0];
    let _kitty_1 = l.kitties(hash_1).expect("should found the kitty");

    // create another kitty with account #10.
    assert_eq!(l.create_kitty(10), Ok(()));

    let hash_2 = l.kitties_owned(10)[1];
    let _kitty_2 = l.kitties(hash_2).expect("should found the kitty");

    assert_eq!(l.breed_kitty(1, hash_1, hash_2), Err(KittyError::NotKittyOwner));
}
