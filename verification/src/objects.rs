//! The records the engine stores and exchanges.  Identifiers are plain
//! strings; amounts are fixed-point integers scaled by the token precision.
//!
//! `Clone` is written by hand where it is needed, so that a clone is known
//! to equal the original.

use vstd::prelude::*;

use crate::enums::{OrderStatus, ProposalStatus, Vehicle};

verus! {

/// One line of a cart, its unit price already scaled to a fixed-point
/// integer (`round(price * 10^precision)` of the quoted price).
#[derive(Debug)]
pub struct CartItem {
    pub name: String,
    pub serial: String,
    pub price: u128,
    pub quantity: u16,
    pub reference: String,
}

/// A buyer's cart: what is ordered, from whom, and where to deliver it.
#[derive(Debug)]
pub struct Cart {
    pub seller: String,
    pub location: Coordinate,
    pub percentage_insurance: u8,
    pub list_for_bidding: bool,
    pub items: Vec<CartItem>,
}

/// One line of a placed order, fixed at creation and never mutated.
#[derive(Debug)]
pub struct OrderItem {
    pub name: String,
    pub serial: String,
    pub price: u128,
    pub quantity: u16,
    pub reference: String,
}

/// A placed order's metadata.  `courier` stays `None` while the order is
/// open for bidding.
#[derive(Debug)]
pub struct Order {
    pub amount: u128,
    pub seller: String,
    pub status: OrderStatus,
    pub insurance: u8,
    pub courier: Option<String>,
    pub timestamp: u64,
    pub location: Coordinate,
}

/// An order as handed back to a client: identifier, metadata and lines.
#[derive(Debug)]
pub struct UserOrder {
    pub id: String,
    pub metadata: Order,
    pub products: Vec<OrderItem>,
}

/// One page of orders together with the offset of the next page.
#[derive(Debug)]
pub struct OrderBundle {
    pub next_page: u16,
    pub orders: Vec<UserOrder>,
}

/// A directory record of a person; couriers carry a courier profile.
#[derive(Debug)]
pub struct User {
    pub name: String,
    pub phone: String,
    pub email: String,
    pub image: String,
    pub courier_profile: Option<Courier>,
}

/// The courier-specific part of a directory record.
#[derive(Debug)]
pub struct Courier {
    pub vehicle: Vehicle,
    pub make_model: String,
    pub plate_id: String,
    pub on_transit: bool,
    pub feedback: Option<Feedback>,
}

/// Opaque feedback score attached to a courier.
#[derive(Clone, Copy, Debug)]
pub struct Feedback {
    pub score: u64,
    pub star_rate: StarRate,
}

/// A star rating: how many voted and the votes they cast.
#[derive(Clone, Copy, Debug)]
pub struct StarRate {
    pub voters: u64,
    pub votes: u64,
}

/// A courier registration as submitted, the vehicle still a plain string.
#[derive(Debug)]
pub struct CourierUser {
    pub name: String,
    pub phone: String,
    pub email: String,
    pub image: String,
    pub vehicle: String,
    pub make_model: String,
    pub plate_id: String,
}

/// A candidate courier as shown to a buyer, with the fee the courier asks.
#[derive(Debug)]
pub struct CourierClientView {
    pub id: String,
    pub name: String,
    pub image: String,
    pub phone: String,
    pub on_transit: bool,
    pub feedback: Option<Feedback>,
    pub proposed_fee: u128,
}

/// The payload of an approval instruction: which courier wins which order.
#[derive(Debug)]
pub struct ProposalApproval {
    pub order_id: String,
    pub courier_id: String,
}

/// A courier of a company, with the deliveries counted for it.
#[derive(Debug)]
pub struct CourierProfile {
    pub deliveries: u64,
    pub profile: User,
}

/// A company of the directory; `wallet` receives escrowed order totals.
#[derive(Debug)]
pub struct Company {
    pub name: String,
    pub wallet: String,
    pub phone: String,
    pub email: String,
    pub location: Coordinate,
    pub sales: u64,
    pub star_rate: StarRate,
}

/// A delivery location.
#[derive(Clone, Copy, Debug)]
pub struct Coordinate {
    pub lat: i64,
    pub lon: i64,
}

/// A courier's bid on an order.  `amount` is locked once approved and is
/// then always twice the fee.
#[derive(Debug)]
pub struct Proposal {
    pub client: String,
    pub courier_id: Option<String>,
    pub amount: u128,
    pub fee: u128,
    pub status: ProposalStatus,
}

/// Per-account ledger record: released funds and the total still locked.
#[derive(Debug)]
pub struct Account {
    pub balance: u128,
    pub total_locked_balance: u128,
    pub account_id: String,
}

/// One escrow hold: who is paid on release, and how much is held.
#[derive(Debug)]
pub struct LockedAmount {
    pub receiver_id: String,
    pub amount: u128,
}

impl Clone for LockedAmount {
    fn clone(&self) -> (r: Self)
        ensures
            r == *self,
    {
        LockedAmount { receiver_id: self.receiver_id.clone(), amount: self.amount }
    }
}

impl Clone for Account {
    fn clone(&self) -> (r: Self)
        ensures
            r == *self,
    {
        Account {
            balance: self.balance,
            total_locked_balance: self.total_locked_balance,
            account_id: self.account_id.clone(),
        }
    }
}

impl Clone for OrderItem {
    fn clone(&self) -> (r: Self)
        ensures
            r == *self,
    {
        OrderItem {
            name: self.name.clone(),
            serial: self.serial.clone(),
            price: self.price,
            quantity: self.quantity,
            reference: self.reference.clone(),
        }
    }
}

impl Clone for Order {
    fn clone(&self) -> (r: Self)
        ensures
            r == *self,
    {
        Order {
            amount: self.amount,
            seller: self.seller.clone(),
            status: self.status,
            insurance: self.insurance,
            courier: match &self.courier {
                Some(c) => Some(c.clone()),
                None => None,
            },
            timestamp: self.timestamp,
            location: self.location,
        }
    }
}

impl Clone for Courier {
    fn clone(&self) -> (r: Self)
        ensures
            r == *self,
    {
        Courier {
            vehicle: self.vehicle,
            make_model: self.make_model.clone(),
            plate_id: self.plate_id.clone(),
            on_transit: self.on_transit,
            feedback: self.feedback,
        }
    }
}

impl Clone for User {
    fn clone(&self) -> (r: Self)
        ensures
            r == *self,
    {
        User {
            name: self.name.clone(),
            phone: self.phone.clone(),
            email: self.email.clone(),
            image: self.image.clone(),
            courier_profile: match &self.courier_profile {
                Some(c) => Some(c.clone()),
                None => None,
            },
        }
    }
}

impl Clone for Company {
    fn clone(&self) -> (r: Self)
        ensures
            r == *self,
    {
        Company {
            name: self.name.clone(),
            wallet: self.wallet.clone(),
            phone: self.phone.clone(),
            email: self.email.clone(),
            location: self.location,
            sales: self.sales,
            star_rate: self.star_rate,
        }
    }
}

impl Clone for Proposal {
    fn clone(&self) -> (r: Self)
        ensures
            r == *self,
    {
        Proposal {
            client: self.client.clone(),
            courier_id: match &self.courier_id {
                Some(c) => Some(c.clone()),
                None => None,
            },
            amount: self.amount,
            fee: self.fee,
            status: self.status,
        }
    }
}

/// Clones every line of an order, keeping the sequence of values.
pub fn clone_items(items: &Vec<OrderItem>) -> (r: Vec<OrderItem>)
    ensures
        r@ == items@,
{
    let mut r: Vec<OrderItem> = Vec::new();
    let n = items.len();
    for i in 0..n
        invariant
            n == items@.len(),
            r@ == items@.subrange(0, i as int),
    {
        r.push(items[i].clone());
        proof {
            assert(r@ =~= items@.subrange(0, i + 1 as int));
        }
    }
    proof {
        assert(items@.subrange(0, n as int) =~= items@);
    }
    r
}

/// Clones a list of identifier strings, keeping the sequence of values.
pub fn clone_ids(ids: &Vec<String>) -> (r: Vec<String>)
    ensures
        r@ == ids@,
{
    let mut r: Vec<String> = Vec::new();
    let n = ids.len();
    for i in 0..n
        invariant
            n == ids@.len(),
            r@ == ids@.subrange(0, i as int),
    {
        r.push(ids[i].clone());
        proof {
            assert(r@ =~= ids@.subrange(0, i + 1 as int));
        }
    }
    proof {
        assert(ids@.subrange(0, n as int) =~= ids@);
    }
    r
}

} // verus!
