//! The two money-moving entry points: placing an order and approving a
//! courier's proposal.

use vstd::prelude::*;

use crate::enums::{InternalError, OrderStatus, ProposalStatus};
use crate::objects::{Cart, CartItem, Coordinate, Order, OrderItem, Proposal, ProposalApproval};
use crate::store::StrMap;
use crate::{same_directory, same_ledger, same_proposals, spec_decimal, Contract};

verus! {

/// The order line a cart line becomes: same fields, the price already a
/// scaled integer.
pub open spec fn item_of(c: CartItem) -> OrderItem {
    OrderItem {
        name: c.name,
        serial: c.serial,
        price: c.price,
        quantity: c.quantity,
        reference: c.reference,
    }
}

/// Running total of the scaled item prices, in cart order; an addition
/// that would overflow is dropped rather than wrapped.
pub open spec fn cart_total(items: Seq<CartItem>) -> u128
    decreases items.len(),
{
    if items.len() == 0 {
        0
    } else {
        let rest = cart_total(items.drop_last());
        if rest + items.last().price <= u128::MAX {
            (rest + items.last().price) as u128
        } else {
            rest
        }
    }
}

/// What placing an order answers, decided entirely by the state before the
/// call: the change owed on success, or the first failing check.
pub open spec fn place_order_outcome(
    pre: Contract,
    payer: Seq<char>,
    amount_paid: u128,
    cart: Cart,
    date: u64,
) -> Result<u128, InternalError> {
    let total = cart_total(cart.items@);
    let oid = spec_decimal(date as u128);
    if amount_paid < total {
        Err(InternalError::InsufficientFunds)
    } else if pre.order_of(payer, oid) is Some {
        Err(InternalError::OrderExists)
    } else if pre.company_of(cart.seller@) is None {
        Err(InternalError::CompanyNotFound)
    } else if total == 0 {
        Err(InternalError::InvalidAmount)
    } else if pre.locked_total_of(payer) + total > u128::MAX {
        Err(InternalError::InvalidAmount)
    } else {
        Ok((amount_paid - total) as u128)
    }
}

/// What a successful placement does: the order is created `PENDING` with
/// its fixed lines and an empty candidate list, the seller's pending table
/// routes the identifier to the buyer, the total is locked in escrow
/// addressed to the seller's wallet, and nothing else moves.
pub open spec fn place_order_post(
    pre: Contract,
    post: Contract,
    payer: String,
    seller: String,
    date: u64,
    total: u128,
    items: Seq<OrderItem>,
    list_for_bidding: bool,
    insurance: u8,
    location: Coordinate,
) -> bool {
    let oid = spec_decimal(date as u128);
    &&& post.order_of(payer@, oid) == Some(
        Order {
            amount: total,
            seller,
            status: OrderStatus::PENDING,
            insurance,
            courier: if list_for_bidding {
                None
            } else {
                Some(payer)
            },
            timestamp: date,
            location,
        },
    )
    &&& (match post.items_of(payer@, oid) {
        Some(v) => v@ == items,
        None => false,
    })
    &&& (match post.candidates_of(payer@, oid) {
        Some(v) => v@ == Seq::<String>::empty(),
        None => false,
    })
    &&& post.has_order_store(payer@)
    &&& post.order_ids_of(payer@) == pre.order_ids_of(payer@).push(oid)
    &&& (forall|b: Seq<char>, o: Seq<char>|
        !(b == payer@ && o == oid) ==> post.order_of(b, o) == pre.order_of(b, o)
            && post.items_of(b, o) == pre.items_of(b, o) && post.candidates_of(b, o)
            == pre.candidates_of(b, o))
    &&& (forall|b: Seq<char>|
        b != payer@ ==> post.has_order_store(b) == pre.has_order_store(b) && post.order_ids_of(b)
            == pre.order_ids_of(b))
    &&& post.pending_of(seller@, oid) == Some(payer@)
    &&& post.has_pending_store(seller@)
    &&& (forall|s: Seq<char>, o: Seq<char>|
        !(s == seller@ && o == oid) ==> post.pending_of(s, o) == pre.pending_of(s, o))
    &&& (forall|s: Seq<char>|
        s != seller@ ==> post.has_pending_store(s) == pre.has_pending_store(s))
    &&& post.orders_staged == pre.orders_staged
    &&& post.orders_shipping == pre.orders_shipping
    &&& (match (post.lock_of(payer@, oid), pre.company_of(seller@)) {
        (Some(l), Some(c)) => l.amount == total && l.receiver_id@ == c.wallet@,
        _ => false,
    })
    &&& post.locked_total_of(payer@) == pre.locked_total_of(payer@) + total
    &&& post.balance_of(payer@) == pre.balance_of(payer@)
    &&& (forall|p: Seq<char>, e: Seq<char>|
        !(p == payer@ && e == oid) ==> post.lock_of(p, e) == pre.lock_of(p, e))
    &&& (forall|p: Seq<char>|
        p != payer@ ==> post.balance_of(p) == pre.balance_of(p) && post.locked_total_of(p)
            == pre.locked_total_of(p))
    &&& same_directory(&post, &pre)
    &&& same_proposals(&post, &pre)
    &&& post.token_precision == pre.token_precision
}

/// What approving a proposal answers: the courier's asked fee is escrowed
/// at double its value; the change owed on success, or the first failing
/// check.
pub open spec fn approve_outcome(
    pre: Contract,
    payer: Seq<char>,
    amount: u128,
    approval: ProposalApproval,
) -> Result<u128, InternalError> {
    match pre.proposal_of(approval.courier_id@, approval.order_id@) {
        None => Err(InternalError::NotFound),
        Some(p) => if p.fee * 2 > u128::MAX {
            Err(InternalError::InvalidAmount)
        } else if amount < p.fee * 2 {
            Err(InternalError::InsufficientFunds)
        } else if pre.order_of(payer, approval.order_id@) is None {
            Err(InternalError::InvalidOrder)
        } else {
            Ok((amount - p.fee * 2) as u128)
        },
    }
}

/// What a successful approval does: the proposal is marked `APPROVED` with
/// `amount` twice its fee, the order's courier is set to the approved
/// courier, and nothing else — the escrow ledger in particular — moves.
pub open spec fn approve_post(
    pre: Contract,
    post: Contract,
    payer: Seq<char>,
    approval: ProposalApproval,
) -> bool {
    let c = approval.courier_id@;
    let o = approval.order_id@;
    match (pre.proposal_of(c, o), pre.order_of(payer, o)) {
        (Some(p), Some(ord)) => {
            &&& post.proposal_of(c, o) == Some(
                Proposal {
                    client: p.client,
                    courier_id: p.courier_id,
                    amount: (p.fee * 2) as u128,
                    fee: p.fee,
                    status: ProposalStatus::APPROVED,
                },
            )
            &&& post.order_of(payer, o) == Some(
                Order { courier: Some(approval.courier_id), ..ord },
            )
            &&& post.items_of(payer, o) == pre.items_of(payer, o)
            &&& post.candidates_of(payer, o) == pre.candidates_of(payer, o)
            &&& (forall|b: Seq<char>, q: Seq<char>|
                !(b == payer && q == o) ==> post.order_of(b, q) == pre.order_of(b, q)
                    && post.items_of(b, q) == pre.items_of(b, q) && post.candidates_of(b, q)
                    == pre.candidates_of(b, q))
            &&& (forall|b: Seq<char>|
                post.has_order_store(b) == pre.has_order_store(b) && post.order_ids_of(b)
                    == pre.order_ids_of(b))
            &&& (forall|d: Seq<char>, q: Seq<char>|
                !(d == c && q == o) ==> post.proposal_of(d, q) == pre.proposal_of(d, q))
            &&& (forall|d: Seq<char>|
                post.has_proposal_store(d) == pre.has_proposal_store(d) && post.proposal_ids_of(d)
                    == pre.proposal_ids_of(d))
            &&& same_ledger(&post, &pre)
            &&& same_directory(&post, &pre)
            &&& post.orders_pending == pre.orders_pending
            &&& post.orders_staged == pre.orders_staged
            &&& post.orders_shipping == pre.orders_shipping
            &&& post.token_precision == pre.token_precision
        },
        _ => false,
    }
}

impl Contract {
    /// Approves `approval.courier_id`'s bid on `approval.order_id` for the
    /// buyer `account_id`.  The expected escrow is twice the courier's fee:
    /// one share for the payout, one as a cancellation-insurance buffer.
    /// Returns the change `amount - 2 * fee`; any failing check leaves the
    /// state untouched.
    pub fn approve_proposal(
        &mut self,
        account_id: String,
        amount: u128,
        approval: ProposalApproval,
    ) -> (r: Result<u128, InternalError>)
        requires
            old(self).wf(),
        ensures
            final(self).wf(),
            r == approve_outcome(*old(self), account_id@, amount, approval),
            r is Err ==> *final(self) == *old(self),
            r is Ok ==> approve_post(*old(self), *final(self), account_id@, approval),
    {
        let expected: u128 = {
            let fee: u128 = match self.proposals.get(&approval.courier_id) {
                None => {
                    return Err(InternalError::NotFound);
                },
                Some(ps) => {
                    match ps.get(&approval.order_id) {
                        None => {
                            return Err(InternalError::NotFound);
                        },
                        Some(p) => p.fee,
                    }
                },
            };
            match fee.checked_mul(2) {
                None => {
                    return Err(InternalError::InvalidAmount);
                },
                Some(e) => e,
            }
        };
        if amount < expected {
            return Err(InternalError::InsufficientFunds);
        }
        let order_known: bool = match self.orders.get(&account_id) {
            None => false,
            Some(sub) => sub.has(&approval.order_id),
        };
        if !order_known {
            return Err(InternalError::InvalidOrder);
        }
        // Update the order's courier in place.
        let mut my_orders = self.orders.remove(&account_id).unwrap();
        let j = my_orders.index_of(&approval.order_id).unwrap();
        let (okey, entry) = my_orders.remove_at(j);
        let (ord, items, candidates) = entry;
        let new_order = Order { courier: Some(approval.courier_id.clone()), ..ord };
        proof {
            my_orders.lemma_dom();
        }
        my_orders.insert_at(j, okey, (new_order, items, candidates));
        self.orders.insert(account_id.clone(), my_orders);
        proof {
            assert(my_orders.key_seq() =~= old(self).orders@[account_id@].key_seq());
        }
        // Mark the proposal approved in place.
        let mut ps = self.proposals.remove(&approval.courier_id).unwrap();
        let i = ps.index_of(&approval.order_id).unwrap();
        let (pkey, p) = ps.remove_at(i);
        let new_proposal = Proposal {
            client: p.client,
            courier_id: p.courier_id,
            amount: expected,
            fee: p.fee,
            status: ProposalStatus::APPROVED,
        };
        proof {
            ps.lemma_dom();
        }
        ps.insert_at(i, pkey, new_proposal);
        self.proposals.insert(approval.courier_id.clone(), ps);
        proof {
            assert(ps.key_seq() =~= old(self).proposals@[approval.courier_id@].key_seq());
        }
        Ok(amount - expected)
    }

    /// Builds the order lines from the cart lines and totals their scaled
    /// prices, dropping any addition that would overflow; also hands back
    /// the (empty) candidate-courier list of the new order.
    fn process_ordered_items(&self, cart_items: Vec<CartItem>) -> (r: (
        u128,
        Vec<OrderItem>,
        Vec<String>,
    ))
        ensures
            r.0 == cart_total(cart_items@),
            r.1@ == cart_items@.map_values(|c: CartItem| item_of(c)),
            r.2@ == Seq::<String>::empty(),
    {
        let mut amount: u128 = 0;
        let mut items_store: Vec<OrderItem> = Vec::new();
        let n = cart_items.len();
        for i in 0..n
            invariant
                n == cart_items@.len(),
                amount == cart_total(cart_items@.subrange(0, i as int)),
                items_store@ == cart_items@.subrange(0, i as int).map_values(
                    |c: CartItem| item_of(c),
                ),
        {
            let item = &cart_items[i];
            let order_item = OrderItem {
                price: item.price,
                name: item.name.clone(),
                serial: item.serial.clone(),
                quantity: item.quantity,
                reference: item.reference.clone(),
            };
            items_store.push(order_item);
            amount = match amount.checked_add(item.price) {
                Some(a) => a,
                None => amount,
            };
            proof {
                let pre = cart_items@.subrange(0, i as int);
                let cur = cart_items@.subrange(0, i as int + 1);
                assert(cur.drop_last() =~= pre);
                assert(cur.last() == cart_items@[i as int]);
                assert(items_store@ =~= cur.map_values(|c: CartItem| item_of(c)));
            }
        }
        proof {
            assert(cart_items@.subrange(0, n as int) =~= cart_items@);
        }
        let couriers: Vec<String> = Vec::new();
        (amount, items_store, couriers)
    }

    /// Routes `order_id` to its buyer in the seller's pending table,
    /// creating the table on first use.
    fn update_pending_orders(&mut self, seller_id: &String, order_id: &String, user_id: &String)
        requires
            old(self).wf(),
        ensures
            final(self).wf(),
            final(self).has_pending_store(seller_id@),
            final(self).pending_of(seller_id@, order_id@) == Some(user_id@),
            forall|s: Seq<char>, o: Seq<char>|
                !(s == seller_id@ && o == order_id@) ==> final(self).pending_of(s, o) == old(
                    self,
                ).pending_of(s, o),
            forall|s: Seq<char>|
                s != seller_id@ ==> final(self).has_pending_store(s) == old(
                    self,
                ).has_pending_store(s),
            old(self).pending_of(seller_id@, order_id@) is None ==> final(self).pending_ids_of(
                seller_id@,
            ) == old(self).pending_ids_of(seller_id@).push(order_id@),
            old(self).pending_of(seller_id@, order_id@) is Some ==> final(self).pending_ids_of(
                seller_id@,
            ) == old(self).pending_ids_of(seller_id@),
            same_ledger(final(self), old(self)),
            same_directory(final(self), old(self)),
            same_proposals(final(self), old(self)),
            final(self).orders == old(self).orders,
            final(self).orders_staged == old(self).orders_staged,
            final(self).orders_shipping == old(self).orders_shipping,
            final(self).token_precision == old(self).token_precision,
    {
        let mut pending: StrMap<String> = match self.orders_pending.remove(seller_id) {
            Some(m) => m,
            None => StrMap::new(),
        };
        pending.insert(order_id.clone(), user_id.clone());
        self.orders_pending.insert(seller_id.clone(), pending);
    }

    /// Records a freshly priced order for `account_id`: creates it, routes
    /// it to the seller, and locks `total_cost` in escrow addressed to the
    /// seller's wallet.  Any failing check leaves the state untouched.
    fn register_order(
        &mut self,
        account_id: &String,
        date: u64,
        total_cost: u128,
        items_store: Vec<OrderItem>,
        couriers: Vec<String>,
        amount_paid: u128,
        order_id: &String,
        seller: String,
        list_for_bidding: bool,
        percentage_insurance: u8,
        location: Coordinate,
    ) -> (r: Result<u128, InternalError>)
        requires
            old(self).wf(),
            order_id@ == spec_decimal(date as u128),
            couriers@ == Seq::<String>::empty(),
        ensures
            final(self).wf(),
            r is Err ==> *final(self) == *old(self),
            amount_paid < total_cost <==> r == Err::<u128, InternalError>(
                InternalError::InsufficientFunds,
            ),
            amount_paid >= total_cost && old(self).order_of(account_id@, order_id@) is Some <==> r
                == Err::<u128, InternalError>(InternalError::OrderExists),
            amount_paid >= total_cost && old(self).order_of(account_id@, order_id@) is None && old(
                self,
            ).company_of(seller@) is None <==> r == Err::<u128, InternalError>(
                InternalError::CompanyNotFound,
            ),
            amount_paid >= total_cost && old(self).order_of(account_id@, order_id@) is None && old(
                self,
            ).company_of(seller@) is Some && (total_cost == 0 || old(self).locked_total_of(
                account_id@,
            ) + total_cost > u128::MAX) <==> r == Err::<u128, InternalError>(
                InternalError::InvalidAmount,
            ),
            amount_paid >= total_cost && old(self).order_of(account_id@, order_id@) is None && old(
                self,
            ).company_of(seller@) is Some && total_cost > 0 && old(self).locked_total_of(
                account_id@,
            ) + total_cost <= u128::MAX <==> r is Ok,
            r is Ok ==> r == Ok::<u128, InternalError>((amount_paid - total_cost) as u128)
                && place_order_post(
                *old(self),
                *final(self),
                *account_id,
                seller,
                date,
                total_cost,
                items_store@,
                list_for_bidding,
                percentage_insurance,
                location,
            ),
    {
        if amount_paid < total_cost {
            return Err(InternalError::InsufficientFunds);
        }
        let order_known: bool = match self.orders.get(account_id) {
            None => false,
            Some(sub) => sub.has(order_id),
        };
        if order_known {
            return Err(InternalError::OrderExists);
        }
        let wallet: String = match self.companies.get(&seller) {
            None => {
                return Err(InternalError::CompanyNotFound);
            },
            Some(c) => c.wallet.clone(),
        };
        if total_cost == 0 {
            return Err(InternalError::InvalidAmount);
        }
        let acct = self.get_account(account_id);
        if acct.total_locked_balance.checked_add(total_cost).is_none() {
            return Err(InternalError::InvalidAmount);
        }
        let courier: Option<String> = if list_for_bidding {
            None
        } else {
            Some(account_id.clone())
        };
        let order = Order {
            amount: total_cost,
            seller: seller.clone(),
            status: OrderStatus::PENDING,
            insurance: percentage_insurance,
            courier,
            timestamp: date,
            location,
        };
        let mut my_orders: StrMap<(Order, Vec<OrderItem>, Vec<String>)> = match self.orders.remove(
            account_id,
        ) {
            Some(m) => m,
            None => StrMap::new(),
        };
        my_orders.insert(order_id.clone(), (order, items_store, couriers));
        self.orders.insert(account_id.clone(), my_orders);
        let ghost mid1 = *self;
        self.update_pending_orders(&seller, order_id, account_id);
        let ghost mid2 = *self;
        let locked = self.lock_balance(account_id, order_id, wallet, total_cost);
        proof {
            assert(locked is Ok);
            assert(self.orders_pending == mid2.orders_pending);
            assert(mid1.orders_pending == old(self).orders_pending);
            assert forall|s: Seq<char>, o: Seq<char>|
                !(s == seller@ && o == order_id@) implies self.pending_of(s, o) == old(
                self,
            ).pending_of(s, o) by {
                assert(self.pending_of(s, o) == mid2.pending_of(s, o));
                assert(mid2.pending_of(s, o) == mid1.pending_of(s, o));
                assert(mid1.pending_of(s, o) == old(self).pending_of(s, o));
            }
            assert forall|s: Seq<char>| s != seller@ implies self.has_pending_store(s) == old(
                self,
            ).has_pending_store(s) by {
                assert(self.has_pending_store(s) == mid2.has_pending_store(s));
                assert(mid2.has_pending_store(s) == mid1.has_pending_store(s));
            }
        }
        Ok(amount_paid - total_cost)
    }

    /// Places an order for `account_id`, paid `amount_paid`: prices the
    /// cart, derives the order identifier from the placement timestamp,
    /// creates the order and locks its total in escrow for the seller.
    /// Returns the change `amount_paid - total`; any failing check leaves
    /// the state untouched.
    pub fn place_order(
        &mut self,
        account_id: String,
        amount_paid: u128,
        cart: Cart,
        date: u64,
    ) -> (r: Result<u128, InternalError>)
        requires
            old(self).wf(),
        ensures
            final(self).wf(),
            r == place_order_outcome(*old(self), account_id@, amount_paid, cart, date),
            r is Err ==> *final(self) == *old(self),
            r is Ok ==> place_order_post(
                *old(self),
                *final(self),
                account_id,
                cart.seller,
                date,
                cart_total(cart.items@),
                cart.items@.map_values(|c: CartItem| item_of(c)),
                cart.list_for_bidding,
                cart.percentage_insurance,
                cart.location,
            ),
    {
        let order_id = crate::to_decimal(date as u128);
        let Cart { seller, location, percentage_insurance, list_for_bidding, items } = cart;
        let (total, items_store, couriers) = self.process_ordered_items(items);
        self.register_order(
            &account_id,
            date,
            total,
            items_store,
            couriers,
            amount_paid,
            &order_id,
            seller,
            list_for_bidding,
            percentage_insurance,
            location,
        )
    }
}

} // verus!
