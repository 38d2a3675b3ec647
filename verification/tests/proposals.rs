use escrow_market::enums::{InternalError, ProposalStatus};
use escrow_market::objects::{Cart, CartItem, Company, Coordinate, CourierUser, ProposalApproval, StarRate};
use escrow_market::workflow::Instruction;
use escrow_market::Contract;

fn seller() -> Company {
    Company {
        name: "Acme".to_string(),
        wallet: "acme.wallet".to_string(),
        phone: "000".to_string(),
        email: "acme@example.com".to_string(),
        location: Coordinate { lat: 0, lon: 0 },
        sales: 0,
        star_rate: StarRate { voters: 0, votes: 0 },
    }
}

fn courier_user(vehicle: &str) -> CourierUser {
    CourierUser {
        name: "Kay".to_string(),
        phone: "111".to_string(),
        email: "kay@example.com".to_string(),
        image: "img".to_string(),
        vehicle: vehicle.to_string(),
        make_model: "MM".to_string(),
        plate_id: "PL-1".to_string(),
    }
}

/// Places an order listed for bidding under identifier "42" and returns the
/// contract.
fn with_open_order() -> Contract {
    let mut c = Contract::default();
    c.register_company("acme".to_string(), seller());
    let cart = Cart {
        seller: "acme".to_string(),
        location: Coordinate { lat: 0, lon: 0 },
        percentage_insurance: 0,
        list_for_bidding: true,
        items: vec![CartItem {
            name: "gizmo".to_string(),
            serial: "SN".to_string(),
            price: 1000,
            quantity: 1,
            reference: "r".to_string(),
        }],
    };
    c.place_order("buyer.near".to_string(), 1000, cart, 42).unwrap();
    c
}

#[test]
fn open_bid_starts_pending_with_zero_fee() {
    let mut c = with_open_order();
    c.place_proposal("buyer.near".to_string(), "c1".to_string(), "42".to_string());
    let p = c.get_proposal(&"c1".to_string(), &"42".to_string()).unwrap();
    assert_eq!(p.client, "buyer.near".to_string());
    assert_eq!(p.courier_id, None);
    assert_eq!(p.fee, 0);
    assert_eq!(p.amount, 0);
    assert_eq!(p.status, ProposalStatus::PENDING);
}

#[test]
fn open_bid_is_not_idempotent_reset() {
    // Re-opening an existing bid is a silent no-op: the fee survives.
    let mut c = with_open_order();
    c.place_proposal("buyer.near".to_string(), "c1".to_string(), "42".to_string());
    c.suggest_shipping_fee("c1".to_string(), "42".to_string(), 50);
    c.place_proposal("buyer.near".to_string(), "c1".to_string(), "42".to_string());
    let p = c.get_proposal(&"c1".to_string(), &"42".to_string()).unwrap();
    assert_eq!(p.fee, 50);
}

#[test]
fn set_fee_on_missing_proposal_is_a_noop() {
    let mut c = with_open_order();
    c.suggest_shipping_fee("c1".to_string(), "42".to_string(), 50);
    assert!(c.get_proposal(&"c1".to_string(), &"42".to_string()).is_none());
}

#[test]
fn approve_underpayment_leaves_proposal_pending() {
    // Paying below twice the fee fails; the proposal stays PENDING and the
    // order's courier stays unset.
    let mut c = with_open_order();
    c.place_proposal("buyer.near".to_string(), "c1".to_string(), "42".to_string());
    c.suggest_shipping_fee("c1".to_string(), "42".to_string(), 50);
    let res = c.approve_proposal(
        "buyer.near".to_string(),
        99,
        ProposalApproval { order_id: "42".to_string(), courier_id: "c1".to_string() },
    );
    assert_eq!(res, Err(InternalError::InsufficientFunds));
    let p = c.get_proposal(&"c1".to_string(), &"42".to_string()).unwrap();
    assert_eq!(p.status, ProposalStatus::PENDING);
    assert_eq!(p.amount, 0);
    let bundle = c.get_buyer_orders("buyer.near".to_string(), 0, 10).unwrap();
    assert_eq!(bundle.orders[0].metadata.courier, None);
}

#[test]
fn approve_exact_payment_locks_double_fee() {
    // Paying exactly twice the fee approves the bid: amount = 2 * fee, the
    // order's courier is set, and the change is zero.
    let mut c = with_open_order();
    c.place_proposal("buyer.near".to_string(), "c1".to_string(), "42".to_string());
    c.suggest_shipping_fee("c1".to_string(), "42".to_string(), 50);
    let res = c.approve_proposal(
        "buyer.near".to_string(),
        100,
        ProposalApproval { order_id: "42".to_string(), courier_id: "c1".to_string() },
    );
    assert_eq!(res, Ok(0));
    let p = c.get_proposal(&"c1".to_string(), &"42".to_string()).unwrap();
    assert_eq!(p.status, ProposalStatus::APPROVED);
    assert_eq!(p.amount, 100);
    assert_eq!(p.fee, 50);
    let bundle = c.get_buyer_orders("buyer.near".to_string(), 0, 10).unwrap();
    assert_eq!(bundle.orders[0].metadata.courier, Some("c1".to_string()));
    // The approval itself does not touch the escrow ledger.
    let acct = c.get_account(&"buyer.near".to_string());
    assert_eq!(acct.balance, 0);
    assert_eq!(acct.total_locked_balance, 1000);
}

#[test]
fn approve_overpayment_returns_difference() {
    let mut c = with_open_order();
    c.place_proposal("buyer.near".to_string(), "c1".to_string(), "42".to_string());
    c.suggest_shipping_fee("c1".to_string(), "42".to_string(), 50);
    let res = c.approve_proposal(
        "buyer.near".to_string(),
        120,
        ProposalApproval { order_id: "42".to_string(), courier_id: "c1".to_string() },
    );
    assert_eq!(res, Ok(20));
}

#[test]
fn approve_unknown_proposal_is_not_found() {
    let mut c = with_open_order();
    let res = c.approve_proposal(
        "buyer.near".to_string(),
        100,
        ProposalApproval { order_id: "42".to_string(), courier_id: "c1".to_string() },
    );
    assert_eq!(res, Err(InternalError::NotFound));
}

#[test]
fn set_fee_after_approval_is_a_noop() {
    let mut c = with_open_order();
    c.place_proposal("buyer.near".to_string(), "c1".to_string(), "42".to_string());
    c.suggest_shipping_fee("c1".to_string(), "42".to_string(), 50);
    c.approve_proposal(
        "buyer.near".to_string(),
        100,
        ProposalApproval { order_id: "42".to_string(), courier_id: "c1".to_string() },
    )
    .unwrap();
    c.suggest_shipping_fee("c1".to_string(), "42".to_string(), 7);
    let p = c.get_proposal(&"c1".to_string(), &"42".to_string()).unwrap();
    assert_eq!(p.fee, 50);
}

#[test]
fn funds_received_approval_answers_change() {
    let mut c = with_open_order();
    c.place_proposal("buyer.near".to_string(), "c1".to_string(), "42".to_string());
    c.suggest_shipping_fee("c1".to_string(), "42".to_string(), 50);
    let r = c.ft_on_transfer(
        "buyer.near".to_string(),
        130,
        Instruction::ApproveProposal(ProposalApproval {
            order_id: "42".to_string(),
            courier_id: "c1".to_string(),
        }),
    );
    assert_eq!(r, "30".to_string());
    // A second approval of the same bid now expects the same escrow again;
    // underpaying it is neutral.
    let r = c.ft_on_transfer(
        "buyer.near".to_string(),
        10,
        Instruction::ApproveProposal(ProposalApproval {
            order_id: "42".to_string(),
            courier_id: "c1".to_string(),
        }),
    );
    assert_eq!(r, "10".to_string());
}

#[test]
fn tail_eviction_keeps_approved_courier_proposal() {
    // Candidates [c1, c2, c3] with c3 approved: evicting up to 3 pops the
    // tail first, deletes c2's and c1's proposals, keeps c3's, and returns
    // the evicted identifiers in pop order.
    let mut c = with_open_order();
    c.place_proposal("buyer.near".to_string(), "c1".to_string(), "42".to_string());
    c.place_proposal("buyer.near".to_string(), "c2".to_string(), "42".to_string());
    c.place_proposal("buyer.near".to_string(), "c3".to_string(), "42".to_string());
    c.suggest_shipping_fee("c3".to_string(), "42".to_string(), 50);
    c.approve_proposal(
        "buyer.near".to_string(),
        100,
        ProposalApproval { order_id: "42".to_string(), courier_id: "c3".to_string() },
    )
    .unwrap();

    let removed = c.clear_order_couriers("buyer.near".to_string(), "42".to_string(), 3);
    assert_eq!(removed, vec!["c2".to_string(), "c1".to_string()]);
    assert!(c.get_proposal(&"c1".to_string(), &"42".to_string()).is_none());
    assert!(c.get_proposal(&"c2".to_string(), &"42".to_string()).is_none());
    let kept = c.get_proposal(&"c3".to_string(), &"42".to_string()).unwrap();
    assert_eq!(kept.status, ProposalStatus::APPROVED);
}

#[test]
fn tail_eviction_respects_the_limit() {
    let mut c = with_open_order();
    c.place_proposal("buyer.near".to_string(), "c1".to_string(), "42".to_string());
    c.place_proposal("buyer.near".to_string(), "c2".to_string(), "42".to_string());
    c.place_proposal("buyer.near".to_string(), "c3".to_string(), "42".to_string());
    c.suggest_shipping_fee("c3".to_string(), "42".to_string(), 50);
    c.approve_proposal(
        "buyer.near".to_string(),
        100,
        ProposalApproval { order_id: "42".to_string(), courier_id: "c3".to_string() },
    )
    .unwrap();

    // Only the tail entry is popped; it is the kept courier, so nothing is
    // returned and the other proposals survive.
    let removed = c.clear_order_couriers("buyer.near".to_string(), "42".to_string(), 1);
    assert!(removed.is_empty());
    assert!(c.get_proposal(&"c1".to_string(), &"42".to_string()).is_some());
    assert!(c.get_proposal(&"c2".to_string(), &"42".to_string()).is_some());
}

#[test]
fn eviction_without_approved_courier_is_a_noop() {
    let mut c = with_open_order();
    c.place_proposal("buyer.near".to_string(), "c1".to_string(), "42".to_string());
    let removed = c.clear_order_couriers("buyer.near".to_string(), "42".to_string(), 3);
    assert!(removed.is_empty());
    assert!(c.get_proposal(&"c1".to_string(), &"42".to_string()).is_some());
}

#[test]
fn shipping_suggestions_join_fee_and_profile() {
    let mut c = with_open_order();
    c.register_courier("c1".to_string(), courier_user("motorcycle")).unwrap();
    c.place_proposal("buyer.near".to_string(), "c1".to_string(), "42".to_string());
    c.suggest_shipping_fee("c1".to_string(), "42".to_string(), 50);
    let views = c.get_shipping_suggestions("buyer.near".to_string(), "42".to_string(), 0, 10);
    assert_eq!(views.len(), 1);
    assert_eq!(views[0].id, "c1".to_string());
    assert_eq!(views[0].name, "Kay".to_string());
    assert_eq!(views[0].proposed_fee, 50);
    assert_eq!(views[0].on_transit, false);
}

#[test]
fn register_courier_rejects_unknown_vehicle() {
    let mut c = Contract::default();
    let res = c.register_courier("c1".to_string(), courier_user("hoverboard"));
    assert_eq!(res, Err(InternalError::InvalidVehicle));
    let res = c.register_courier("c1".to_string(), courier_user("lorry"));
    assert_eq!(res, Ok(()));
}

#[test]
fn save_company_requires_directory_entry() {
    let mut c = Contract::default();
    let res = c.save_company("c1".to_string(), "acme".to_string());
    assert_eq!(res, Err(InternalError::CompanyNotFound));

    c.register_company("acme".to_string(), seller());
    c.register_courier("c1".to_string(), courier_user("car")).unwrap();
    assert_eq!(c.save_company("c1".to_string(), "acme".to_string()), Ok(()));

    let saved = c.courier_saved_companies("c1".to_string(), 0, 10).unwrap();
    assert_eq!(saved.len(), 1);
    assert_eq!(saved[0].name, "Acme".to_string());
    let members = c.company_couriers("acme".to_string(), 0, 10).unwrap();
    assert_eq!(members.len(), 1);
    assert_eq!(members[0].deliveries, 0);
    assert_eq!(members[0].profile.name, "Kay".to_string());
}

#[test]
fn courier_proposal_listing_resolves_orders() {
    let mut c = with_open_order();
    c.place_proposal("buyer.near".to_string(), "c1".to_string(), "42".to_string());
    let bundle = c.get_proposals("c1".to_string(), 0, 10).unwrap();
    assert_eq!(bundle.orders.len(), 1);
    assert_eq!(bundle.orders[0].id, "42".to_string());
    assert_eq!(bundle.orders[0].metadata.amount, 1000);
}
