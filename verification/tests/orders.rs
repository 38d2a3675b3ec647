use escrow_market::enums::{InternalError, OrderStatus};
use escrow_market::objects::{Cart, CartItem, Company, Coordinate, StarRate};
use escrow_market::workflow::Instruction;
use escrow_market::Contract;

fn acme() -> Company {
    Company {
        name: "Acme".to_string(),
        wallet: "acme.wallet".to_string(),
        phone: "000".to_string(),
        email: "acme@example.com".to_string(),
        location: Coordinate { lat: 1, lon: 2 },
        sales: 0,
        star_rate: StarRate { voters: 0, votes: 0 },
    }
}

fn cart_one_item(price: u128, for_bidding: bool) -> Cart {
    // A quoted unit price of 12.50 at precision 2 arrives here already
    // scaled to the integer 1250.
    Cart {
        seller: "acme".to_string(),
        location: Coordinate { lat: 3, lon: 4 },
        percentage_insurance: 5,
        list_for_bidding: for_bidding,
        items: vec![CartItem {
            name: "gizmo".to_string(),
            serial: "SN-1".to_string(),
            price,
            quantity: 1,
            reference: "ref-1".to_string(),
        }],
    }
}

#[test]
fn place_order_overpayment_returns_change() {
    // Item price 1250, paying 1300: the order is created and 50 comes back.
    let mut c = Contract::default();
    c.register_company("acme".to_string(), acme());
    let res = c.place_order("buyer.near".to_string(), 1300, cart_one_item(1250, true), 42);
    assert_eq!(res, Ok(50));

    let bundle = c.get_buyer_orders("buyer.near".to_string(), 0, 10).unwrap();
    assert_eq!(bundle.orders.len(), 1);
    let order = &bundle.orders[0];
    assert_eq!(order.id, "42".to_string());
    assert_eq!(order.metadata.amount, 1250);
    assert_eq!(order.metadata.seller, "acme".to_string());
    assert_eq!(order.metadata.status, OrderStatus::PENDING);
    assert_eq!(order.metadata.insurance, 5);
    assert_eq!(order.metadata.courier, None);
    assert_eq!(order.metadata.timestamp, 42);
    assert_eq!(order.products.len(), 1);
    assert_eq!(order.products[0].price, 1250);
    assert_eq!(order.products[0].name, "gizmo".to_string());

    // The total is locked in escrow addressed to the seller's wallet.
    let peek = c.get_locked_balance("buyer.near".to_string(), "42".to_string(), "x".to_string());
    assert_eq!(peek.amount, 1250);
    assert_eq!(peek.receiver_id, "acme.wallet".to_string());
    let acct = c.get_account(&"buyer.near".to_string());
    assert_eq!(acct.total_locked_balance, 1250);
    assert_eq!(acct.balance, 0);
}

#[test]
fn place_order_exact_payment_returns_zero_change() {
    let mut c = Contract::default();
    c.register_company("acme".to_string(), acme());
    let res = c.place_order("buyer.near".to_string(), 1250, cart_one_item(1250, true), 42);
    assert_eq!(res, Ok(0));
}

#[test]
fn place_order_underpayment_is_atomic() {
    // Paying below the total fails with InsufficientFunds and leaves the
    // ledger, the order catalog and the pending index all untouched.
    let mut c = Contract::default();
    c.register_company("acme".to_string(), acme());
    let res = c.place_order("buyer.near".to_string(), 1249, cart_one_item(1250, true), 42);
    assert_eq!(res, Err(InternalError::InsufficientFunds));

    assert!(c.get_buyer_orders("buyer.near".to_string(), 0, 10).is_none());
    assert!(c.get_pending_orders("acme".to_string(), 0, 10).is_none());
    let acct = c.get_account(&"buyer.near".to_string());
    assert_eq!(acct.balance, 0);
    assert_eq!(acct.total_locked_balance, 0);
    let peek = c.get_locked_balance("buyer.near".to_string(), "42".to_string(), "x".to_string());
    assert_eq!(peek.amount, 0);
}

#[test]
fn place_order_identifier_collision_is_rejected() {
    let mut c = Contract::default();
    c.register_company("acme".to_string(), acme());
    assert!(c.place_order("buyer.near".to_string(), 2000, cart_one_item(1250, true), 42).is_ok());
    let res = c.place_order("buyer.near".to_string(), 2000, cart_one_item(1250, true), 42);
    assert_eq!(res, Err(InternalError::OrderExists));
}

#[test]
fn place_order_unknown_seller_is_rejected() {
    let mut c = Contract::default();
    let res = c.place_order("buyer.near".to_string(), 2000, cart_one_item(1250, true), 42);
    assert_eq!(res, Err(InternalError::CompanyNotFound));
}

#[test]
fn place_order_empty_cart_is_rejected() {
    let mut c = Contract::default();
    c.register_company("acme".to_string(), acme());
    let cart = Cart {
        seller: "acme".to_string(),
        location: Coordinate { lat: 0, lon: 0 },
        percentage_insurance: 0,
        list_for_bidding: true,
        items: vec![],
    };
    let res = c.place_order("buyer.near".to_string(), 100, cart, 42);
    assert_eq!(res, Err(InternalError::InvalidAmount));
}

#[test]
fn place_order_not_for_bidding_preassigns_buyer() {
    let mut c = Contract::default();
    c.register_company("acme".to_string(), acme());
    c.place_order("buyer.near".to_string(), 1250, cart_one_item(1250, false), 42).unwrap();
    let bundle = c.get_buyer_orders("buyer.near".to_string(), 0, 10).unwrap();
    assert_eq!(bundle.orders[0].metadata.courier, Some("buyer.near".to_string()));
}

#[test]
fn order_total_sums_item_prices() {
    let mut c = Contract::default();
    c.register_company("acme".to_string(), acme());
    let cart = Cart {
        seller: "acme".to_string(),
        location: Coordinate { lat: 0, lon: 0 },
        percentage_insurance: 0,
        list_for_bidding: true,
        items: vec![
            CartItem {
                name: "a".to_string(),
                serial: "1".to_string(),
                price: 300,
                quantity: 1,
                reference: "r1".to_string(),
            },
            CartItem {
                name: "b".to_string(),
                serial: "2".to_string(),
                price: 5,
                quantity: 2,
                reference: "r2".to_string(),
            },
        ],
    };
    let res = c.place_order("buyer.near".to_string(), 400, cart, 7);
    assert_eq!(res, Ok(95));
    let peek = c.get_locked_balance("buyer.near".to_string(), "7".to_string(), "x".to_string());
    assert_eq!(peek.amount, 305);
}

#[test]
fn funds_received_dispatches_and_answers_decimal_strings() {
    let mut c = Contract::default();
    c.register_company("acme".to_string(), acme());
    // A recognized placement: the change comes back as a decimal string.
    let r = c.ft_on_transfer(
        "buyer.near".to_string(),
        1300,
        Instruction::PlaceOrder(cart_one_item(1250, true), 42),
    );
    assert_eq!(r, "50".to_string());
    // A rejected placement (identifier collision) is economically neutral.
    let r = c.ft_on_transfer(
        "buyer.near".to_string(),
        1300,
        Instruction::PlaceOrder(cart_one_item(1250, true), 42),
    );
    assert_eq!(r, "1300".to_string());
    // An unrecognized instruction answers the amount unchanged.
    let r = c.ft_on_transfer("buyer.near".to_string(), 77, Instruction::Unknown);
    assert_eq!(r, "77".to_string());
}

#[test]
fn stage_order_moves_pending_to_stagged() {
    let mut c = Contract::default();
    c.register_company("acme".to_string(), acme());
    c.place_order("buyer.near".to_string(), 1250, cart_one_item(1250, true), 42).unwrap();

    // The seller's pending table lists the order.
    let pending = c.get_pending_orders("acme".to_string(), 0, 10).unwrap();
    assert_eq!(pending.orders.len(), 1);
    assert_eq!(pending.orders[0].id, "42".to_string());

    // Staging is gated on the caller's own pending table.
    assert_eq!(c.stage_order("someone.near".to_string(), "42".to_string()), None);
    let staged = c.stage_order("acme".to_string(), "42".to_string());
    assert_eq!(staged, Some("42".to_string()));
    let bundle = c.get_buyer_orders("buyer.near".to_string(), 0, 10).unwrap();
    assert_eq!(bundle.orders[0].metadata.status, OrderStatus::STAGGED);
}

#[test]
fn buyer_orders_paginate_in_insertion_order() {
    let mut c = Contract::default();
    c.register_company("acme".to_string(), acme());
    c.place_order("buyer.near".to_string(), 1250, cart_one_item(1250, true), 1).unwrap();
    c.place_order("buyer.near".to_string(), 1250, cart_one_item(1250, true), 2).unwrap();
    c.place_order("buyer.near".to_string(), 1250, cart_one_item(1250, true), 3).unwrap();

    let page0 = c.get_buyer_orders("buyer.near".to_string(), 0, 2).unwrap();
    assert_eq!(page0.next_page, 2);
    assert_eq!(page0.orders.len(), 2);
    assert_eq!(page0.orders[0].id, "1".to_string());
    assert_eq!(page0.orders[1].id, "2".to_string());
    let page1 = c.get_buyer_orders("buyer.near".to_string(), 2, 2).unwrap();
    assert_eq!(page1.orders.len(), 1);
    assert_eq!(page1.orders[0].id, "3".to_string());
}

#[test]
fn quoted_float_price_scales_to_fixed_point() {
    // A quoted unit price of 12.50 at precision 2 scales to the integer
    // 1250; paying 1300 creates the order and returns change "50".
    let scaled = (12.50_f64 * 100.0_f64).round() as u128;
    assert_eq!(scaled, 1250);
    let mut c = Contract::default();
    c.register_company("acme".to_string(), acme());
    let r = c.ft_on_transfer(
        "buyer.near".to_string(),
        1300,
        Instruction::PlaceOrder(cart_one_item(scaled, true), 42),
    );
    assert_eq!(r, "50".to_string());
    let bundle = c.get_buyer_orders("buyer.near".to_string(), 0, 10).unwrap();
    assert_eq!(bundle.orders[0].metadata.amount, 1250);
}

#[test]
fn staged_listing_is_empty_until_a_staged_table_exists() {
    let c = Contract::default();
    assert!(c.get_staged_orders("acme".to_string(), 0, 10).is_none());
}
