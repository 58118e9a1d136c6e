use setu_router::{create_coin, Address, Balance, Coin};

#[test]
fn test_balance_operations() {
    let mut balance = Balance::new(1000);

    // Withdraw
    let withdrawn = balance.withdraw(300).unwrap();
    assert_eq!(balance.value(), 700);
    assert_eq!(withdrawn.value(), 300);

    // Deposit
    balance.deposit(withdrawn).unwrap();
    assert_eq!(balance.value(), 1000);

    // Insufficient balance
    assert!(balance.withdraw(2000).is_err());
}

#[test]
fn test_balance_overflow() {
    let mut balance = Balance::new(u64::MAX - 100);
    let to_add = Balance::new(200);
    assert!(balance.deposit(to_add).is_err());
}

#[test]
fn test_coin_creation() {
    let owner = Address::from("sbt_alice");
    let coin = Coin::new(owner.clone(), 1000);

    assert_eq!(coin.value(), 1000);
    assert_eq!(coin.metadata.owner.as_ref().unwrap(), &owner);
    assert_eq!(coin.metadata.version, 1); // Initial version is 1
}

#[test]
fn test_coin_split() {
    let owner = Address::from("sbt_alice");
    let mut coin = Coin::new(owner.clone(), 1000);

    let new_owner = Address::from("sbt_bob");
    let new_coin = coin.split(300, new_owner.clone()).unwrap();

    assert_eq!(coin.value(), 700);
    assert_eq!(new_coin.value(), 300);
    assert_eq!(coin.metadata.version, 2); // Version incremented after operation
    assert_eq!(new_coin.metadata.version, 1); // Newly created object has version 1
    assert_eq!(new_coin.metadata.owner.as_ref().unwrap(), &new_owner);
}

#[test]
fn test_coin_split_insufficient() {
    let owner = Address::from("sbt_alice");
    let mut coin = Coin::new(owner.clone(), 100);

    let result = coin.split(200, Address::from("sbt_bob"));
    assert!(result.is_err());
}

#[test]
fn test_coin_merge() {
    let owner = Address::from("sbt_alice");
    let mut coin1 = Coin::new(owner.clone(), 1000);
    let coin2 = Coin::new(owner.clone(), 500);

    coin1.merge(coin2).unwrap();

    assert_eq!(coin1.value(), 1500);
    assert_eq!(coin1.metadata.version, 2); // Version incremented after operation
}

#[test]
fn test_coin_transfer() {
    let owner = Address::from("sbt_alice");
    let mut coin = Coin::new(owner.clone(), 1000);

    let new_owner = Address::from("sbt_bob");
    coin.transfer(new_owner.clone());

    assert_eq!(coin.metadata.owner.as_ref().unwrap(), &new_owner);
    assert_eq!(coin.metadata.version, 2); // Version incremented after operation
}

#[test]
fn coin_identifiers_are_hex_and_distinct() {
    let a = create_coin(Address::from("sbt_alice"), 1000);
    let b = create_coin(Address::from("sbt_alice"), 1001);
    let c = create_coin(Address::from("sbt_alice"), 1000);

    // 32-byte digest written as 64 hex characters
    assert_eq!(a.id.len(), 64);
    assert!(a.id.chars().all(|c| c.is_ascii_hexdigit()));
    // different preimages give different identifiers
    assert_ne!(a.id, b.id);
    // identical preimages give identical identifiers
    assert_eq!(a.id, c.id);
}

#[test]
fn withdraw_error_names_amounts() {
    let mut balance = Balance::new(42);
    let err = balance.withdraw(100).unwrap_err();
    assert_eq!(err, "Insufficient balance: have 42, need 100");
    assert_eq!(balance.value(), 42);
}
