use escrow_market::enums::InternalError;
use escrow_market::to_decimal;
use escrow_market::Contract;

#[test]
fn lock_then_release_restores_balance() {
    // Lock 100 for escrow "E1" addressed to "seller.near", then release it:
    // the receiver comes back, the balance rises by 100, and the recorded
    // locked total returns to its starting point.
    let mut c = Contract::default();
    let buyer = "buyer.near".to_string();
    let res = c.lock_balance(&buyer, &"E1".to_string(), "seller.near".to_string(), 100);
    assert!(res.is_ok());
    let acct = c.get_account(&buyer);
    assert_eq!(acct.balance, 0);
    assert_eq!(acct.total_locked_balance, 100);

    let receiver = c.refund(buyer.clone(), "E1".to_string());
    assert_eq!(receiver, Ok("seller.near".to_string()));
    let acct = c.get_account(&buyer);
    assert_eq!(acct.balance, 100);
    assert_eq!(acct.total_locked_balance, 0);

    // The hold is gone: peeking answers a zero placeholder addressed to the
    // receiver the caller names.
    let peek = c.get_locked_balance(buyer.clone(), "E1".to_string(), "r2".to_string());
    assert_eq!(peek.amount, 0);
    assert_eq!(peek.receiver_id, "r2".to_string());
}

#[test]
fn lock_zero_amount_is_invalid() {
    let mut c = Contract::default();
    let buyer = "buyer.near".to_string();
    let res = c.lock_balance(&buyer, &"E1".to_string(), "seller.near".to_string(), 0);
    assert_eq!(res, Err(InternalError::InvalidAmount));
    // Nothing was mutated.
    let acct = c.get_account(&buyer);
    assert_eq!(acct.balance, 0);
    assert_eq!(acct.total_locked_balance, 0);
    let peek = c.get_locked_balance(buyer, "E1".to_string(), "x".to_string());
    assert_eq!(peek.amount, 0);
}

#[test]
fn refund_without_lock_store_is_not_found() {
    let mut c = Contract::default();
    let res = c.refund("nobody.near".to_string(), "E1".to_string());
    assert_eq!(res, Err(InternalError::NotFound));
}

#[test]
fn refund_unknown_escrow_id_is_invalid_order() {
    let mut c = Contract::default();
    let buyer = "buyer.near".to_string();
    c.lock_balance(&buyer, &"E1".to_string(), "seller.near".to_string(), 100).unwrap();
    let res = c.refund(buyer, "E2".to_string());
    assert_eq!(res, Err(InternalError::InvalidOrder));
}

#[test]
fn relock_overwrites_without_credit() {
    // Re-locking the same escrow id replaces the hold without crediting the
    // prior amount back: the recorded locked total keeps both amounts.
    let mut c = Contract::default();
    let buyer = "buyer.near".to_string();
    c.lock_balance(&buyer, &"E1".to_string(), "seller.near".to_string(), 100).unwrap();
    c.lock_balance(&buyer, &"E1".to_string(), "other.near".to_string(), 40).unwrap();

    let peek = c.get_locked_balance(buyer.clone(), "E1".to_string(), "x".to_string());
    assert_eq!(peek.amount, 40);
    assert_eq!(peek.receiver_id, "other.near".to_string());
    let acct = c.get_account(&buyer);
    assert_eq!(acct.balance, 0);
    assert_eq!(acct.total_locked_balance, 140);

    // Releasing credits only the surviving hold.
    let receiver = c.refund(buyer.clone(), "E1".to_string());
    assert_eq!(receiver, Ok("other.near".to_string()));
    let acct = c.get_account(&buyer);
    assert_eq!(acct.balance, 40);
    assert_eq!(acct.total_locked_balance, 100);
}

#[test]
fn independent_payers_do_not_interfere() {
    let mut c = Contract::default();
    let a = "a.near".to_string();
    let b = "b.near".to_string();
    c.lock_balance(&a, &"E1".to_string(), "s.near".to_string(), 10).unwrap();
    c.lock_balance(&b, &"E1".to_string(), "s.near".to_string(), 20).unwrap();
    assert_eq!(c.get_account(&a).total_locked_balance, 10);
    assert_eq!(c.get_account(&b).total_locked_balance, 20);
    c.refund(a.clone(), "E1".to_string()).unwrap();
    assert_eq!(c.get_account(&a).balance, 10);
    assert_eq!(c.get_account(&b).balance, 0);
    assert_eq!(c.get_account(&b).total_locked_balance, 20);
}

#[test]
fn decimal_rendering_is_exact() {
    assert_eq!(to_decimal(0), "0".to_string());
    assert_eq!(to_decimal(7), "7".to_string());
    assert_eq!(to_decimal(50), "50".to_string());
    assert_eq!(to_decimal(1250), "1250".to_string());
    assert_eq!(to_decimal(1000000000000000000), "1000000000000000000".to_string());
    assert_eq!(
        to_decimal(340282366920938463463374607431768211455),
        "340282366920938463463374607431768211455".to_string()
    );
}
