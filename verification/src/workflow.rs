//! Order staging, courier bidding, fee negotiation, candidate eviction,
//! directory registration, and the funds-received dispatcher that ties the
//! engine together.

use vstd::prelude::*;

use crate::enums::{InternalError, OrderStatus, ProposalStatus, Vehicle};
use crate::objects::{
    Cart, CartItem, Company, Courier, CourierUser, Order, Proposal, ProposalApproval, User,
};
use crate::store::StrMap;
use crate::transaction::{
    approve_outcome, approve_post, cart_total, item_of, place_order_outcome, place_order_post,
};
use crate::{same_directory, same_ledger, same_proposals, spec_decimal, Contract};

verus! {

/// One parsed instruction of the funds-received protocol.  A payload that
/// fails to parse, or an unrecognized tag, arrives as `Unknown`; an order
/// placement carries the host's current timestamp, from which the order
/// identifier is derived.
pub enum Instruction {
    PlaceOrder(Cart, u64),
    ApproveProposal(ProposalApproval),
    Unknown,
}

/// The vehicle class a registration string names.
pub open spec fn vehicle_of(s: Seq<char>) -> Option<Vehicle> {
    if s == "motorcycle"@ {
        Some(Vehicle::MOTORCYCLE)
    } else if s == "tuktuk"@ {
        Some(Vehicle::TUKTUK)
    } else if s == "car"@ {
        Some(Vehicle::CAR)
    } else if s == "pickup"@ {
        Some(Vehicle::PICKUP)
    } else if s == "lorry"@ {
        Some(Vehicle::LORRY)
    } else {
        None
    }
}

/// Some listed identifier reads `d`.
pub open spec fn has_view(ids: Seq<String>, d: Seq<char>) -> bool {
    exists|i: int| 0 <= i < ids.len() && ids[i]@ == d
}

/// The candidates a tail eviction of up to `n` entries returns, most
/// recently added first, the kept courier excluded.
pub open spec fn evicted(cands: Seq<String>, keep: Seq<char>, n: int) -> Seq<String>
    decreases cands.len(),
{
    if n <= 0 || cands.len() == 0 {
        Seq::empty()
    } else if cands.last()@ == keep {
        evicted(cands.drop_last(), keep, n - 1)
    } else {
        seq![cands.last()] + evicted(cands.drop_last(), keep, n - 1)
    }
}

/// Evicting more entries than the list holds evicts the whole list.
pub proof fn lemma_evicted_clip(cands: Seq<String>, keep: Seq<char>, n1: int, n2: int)
    requires
        n1 >= cands.len(),
        n2 >= cands.len(),
    ensures
        evicted(cands, keep, n1) == evicted(cands, keep, n2),
    decreases cands.len(),
{
    if cands.len() > 0 {
        lemma_evicted_clip(cands.drop_last(), keep, n1 - 1, n2 - 1);
    }
}

/// What a tail eviction does: up to `limit` candidates are popped from the
/// tail, each popped candidate except `keep` loses its proposal on `oid`
/// and is returned, and nothing else moves.
pub open spec fn clear_post(
    pre: Contract,
    post: Contract,
    buyer: Seq<char>,
    oid: Seq<char>,
    keep: Seq<char>,
    limit: u16,
    r: Seq<String>,
) -> bool {
    match (pre.candidates_of(buyer, oid), post.candidates_of(buyer, oid)) {
        (Some(c0), Some(c1)) => {
            let k: int = if limit as int <= c0@.len() {
                limit as int
            } else {
                c0@.len() as int
            };
            &&& r == evicted(c0@, keep, limit as int)
            &&& c1@ == c0@.subrange(0, c0@.len() - k)
            &&& post.order_of(buyer, oid) == pre.order_of(buyer, oid)
            &&& post.items_of(buyer, oid) == pre.items_of(buyer, oid)
            &&& (forall|b: Seq<char>, q: Seq<char>|
                !(b == buyer && q == oid) ==> post.order_of(b, q) == pre.order_of(b, q)
                    && post.items_of(b, q) == pre.items_of(b, q) && post.candidates_of(b, q)
                    == pre.candidates_of(b, q))
            &&& (forall|b: Seq<char>|
                post.has_order_store(b) == pre.has_order_store(b) && post.order_ids_of(b)
                    == pre.order_ids_of(b))
            &&& (forall|d: Seq<char>, q: Seq<char>|
                post.proposal_of(d, q) == if q == oid && has_view(r, d) {
                    None::<Proposal>
                } else {
                    pre.proposal_of(d, q)
                })
            &&& (forall|d: Seq<char>|
                post.has_proposal_store(d) == pre.has_proposal_store(d))
            &&& (forall|d: Seq<char>|
                !has_view(r, d) ==> post.proposal_ids_of(d) == pre.proposal_ids_of(d))
            &&& same_ledger(&post, &pre)
            &&& same_directory(&post, &pre)
            &&& post.orders_pending == pre.orders_pending
            &&& post.orders_staged == pre.orders_staged
            &&& post.orders_shipping == pre.orders_shipping
            &&& post.token_precision == pre.token_precision
        },
        _ => false,
    }
}

impl Contract {
    /// Seller-side transition `PENDING -> STAGGED`: gated on the order
    /// being routed in the caller's own pending table; answers the staged
    /// identifier, or nothing (and no state change) on any miss.
    pub fn stage_order(&mut self, account_id: String, order_id: String) -> (r: Option<String>)
        requires
            old(self).wf(),
        ensures
            final(self).wf(),
            match old(self).pending_of(account_id@, order_id@) {
                None => r is None && *final(self) == *old(self),
                Some(buyer) => match old(self).order_of(buyer, order_id@) {
                    None => r is None && *final(self) == *old(self),
                    Some(ord) => {
                        &&& r == Some(order_id)
                        &&& final(self).order_of(buyer, order_id@) == Some(
                            Order { status: OrderStatus::STAGGED, ..ord },
                        )
                        &&& final(self).items_of(buyer, order_id@) == old(self).items_of(
                            buyer,
                            order_id@,
                        )
                        &&& final(self).candidates_of(buyer, order_id@) == old(
                            self,
                        ).candidates_of(buyer, order_id@)
                        &&& (forall|b: Seq<char>, q: Seq<char>|
                            !(b == buyer && q == order_id@) ==> final(self).order_of(b, q) == old(
                                self,
                            ).order_of(b, q) && final(self).items_of(b, q) == old(self).items_of(
                                b,
                                q,
                            ) && final(self).candidates_of(b, q) == old(self).candidates_of(b, q))
                        &&& (forall|b: Seq<char>|
                            final(self).has_order_store(b) == old(self).has_order_store(b)
                                && final(self).order_ids_of(b) == old(self).order_ids_of(b))
                        &&& same_ledger(final(self), old(self))
                        &&& same_directory(final(self), old(self))
                        &&& same_proposals(final(self), old(self))
                        &&& final(self).orders_pending == old(self).orders_pending
                        &&& final(self).orders_staged == old(self).orders_staged
                        &&& final(self).orders_shipping == old(self).orders_shipping
                        &&& final(self).token_precision == old(self).token_precision
                    },
                },
            },
    {
        let buyer: String = match self.orders_pending.get(&account_id) {
            None => {
                return None;
            },
            Some(p) => match p.get(&order_id) {
                None => {
                    return None;
                },
                Some(b) => b.clone(),
            },
        };
        let order_known: bool = match self.orders.get(&buyer) {
            None => false,
            Some(sub) => sub.has(&order_id),
        };
        if !order_known {
            return None;
        }
        let ghost bview = buyer@;
        let mut my_orders = self.orders.remove(&buyer).unwrap();
        let j = my_orders.index_of(&order_id).unwrap();
        let (okey, entry) = my_orders.remove_at(j);
        let (ord, items, cands) = entry;
        let new_order = Order { status: OrderStatus::STAGGED, ..ord };
        proof {
            my_orders.lemma_dom();
        }
        my_orders.insert_at(j, okey, (new_order, items, cands));
        self.orders.insert(buyer, my_orders);
        proof {
            assert(my_orders.key_seq() =~= old(self).orders@[bview].key_seq());
        }
        Some(order_id)
    }

    /// A buyer adds `courier_id` as a candidate on their order: opens a
    /// `PENDING` proposal with zero fee and appends the courier to the
    /// order's candidate list.  A no-op when the proposal already exists or
    /// the order is unknown.
    pub fn place_proposal(&mut self, account_id: String, courier_id: String, order_id: String)
        requires
            old(self).wf(),
        ensures
            final(self).wf(),
            old(self).proposal_of(courier_id@, order_id@) is Some ==> *final(self) == *old(self),
            old(self).proposal_of(courier_id@, order_id@) is None && old(self).order_of(
                account_id@,
                order_id@,
            ) is None ==> *final(self) == *old(self),
            old(self).proposal_of(courier_id@, order_id@) is None && old(self).order_of(
                account_id@,
                order_id@,
            ) is Some ==> {
                &&& final(self).proposal_of(courier_id@, order_id@) == Some(
                    Proposal {
                        client: account_id,
                        courier_id: None,
                        amount: 0,
                        fee: 0,
                        status: ProposalStatus::PENDING,
                    },
                )
                &&& final(self).has_proposal_store(courier_id@)
                &&& final(self).proposal_ids_of(courier_id@) == old(self).proposal_ids_of(
                    courier_id@,
                ).push(order_id@)
                &&& (forall|d: Seq<char>, q: Seq<char>|
                    !(d == courier_id@ && q == order_id@) ==> final(self).proposal_of(d, q) == old(
                        self,
                    ).proposal_of(d, q))
                &&& (forall|d: Seq<char>|
                    d != courier_id@ ==> final(self).has_proposal_store(d) == old(
                        self,
                    ).has_proposal_store(d) && final(self).proposal_ids_of(d) == old(
                        self,
                    ).proposal_ids_of(d))
                &&& (match (final(self).candidates_of(account_id@, order_id@), old(
                    self,
                ).candidates_of(account_id@, order_id@)) {
                    (Some(v1), Some(v0)) => v1@ == v0@.push(courier_id),
                    _ => false,
                })
                &&& final(self).order_of(account_id@, order_id@) == old(self).order_of(
                    account_id@,
                    order_id@,
                )
                &&& final(self).items_of(account_id@, order_id@) == old(self).items_of(
                    account_id@,
                    order_id@,
                )
                &&& (forall|b: Seq<char>, q: Seq<char>|
                    !(b == account_id@ && q == order_id@) ==> final(self).order_of(b, q) == old(
                        self,
                    ).order_of(b, q) && final(self).items_of(b, q) == old(self).items_of(b, q)
                        && final(self).candidates_of(b, q) == old(self).candidates_of(b, q))
                &&& (forall|b: Seq<char>|
                    final(self).has_order_store(b) == old(self).has_order_store(b)
                        && final(self).order_ids_of(b) == old(self).order_ids_of(b))
                &&& same_ledger(final(self), old(self))
                &&& same_directory(final(self), old(self))
                &&& final(self).orders_pending == old(self).orders_pending
                &&& final(self).orders_staged == old(self).orders_staged
                &&& final(self).orders_shipping == old(self).orders_shipping
                &&& final(self).token_precision == old(self).token_precision
            },
    {
        let already: bool = match self.proposals.get(&courier_id) {
            None => false,
            Some(ps) => ps.has(&order_id),
        };
        if already {
            return ;
        }
        let order_known: bool = match self.orders.get(&account_id) {
            None => false,
            Some(sub) => sub.has(&order_id),
        };
        if !order_known {
            return ;
        }
        let proposal = Proposal {
            client: account_id.clone(),
            courier_id: None,
            amount: 0,
            fee: 0,
            status: ProposalStatus::PENDING,
        };
        let mut ps: StrMap<Proposal> = match self.proposals.remove(&courier_id) {
            Some(m) => m,
            None => StrMap::new(),
        };
        ps.insert(order_id.clone(), proposal);
        self.proposals.insert(courier_id.clone(), ps);
        let mut my_orders = self.orders.remove(&account_id).unwrap();
        let j = my_orders.index_of(&order_id).unwrap();
        let (okey, entry) = my_orders.remove_at(j);
        let (ord, items, mut cands) = entry;
        cands.push(courier_id);
        proof {
            my_orders.lemma_dom();
        }
        my_orders.insert_at(j, okey, (ord, items, cands));
        self.orders.insert(account_id, my_orders);
        proof {
            assert(my_orders.key_seq() =~= old(self).orders@[account_id@].key_seq());
        }
    }

    /// A courier asks `amount` as their fee on `order_id`.  Allowed while
    /// the proposal is not yet approved; a benign no-op otherwise, or when
    /// no such proposal exists.
    pub fn suggest_shipping_fee(&mut self, account_id: String, order_id: String, amount: u128)
        requires
            old(self).wf(),
        ensures
            final(self).wf(),
            match old(self).proposal_of(account_id@, order_id@) {
                None => *final(self) == *old(self),
                Some(p) => if p.status == ProposalStatus::APPROVED {
                    *final(self) == *old(self)
                } else {
                    &&& final(self).proposal_of(account_id@, order_id@) == Some(
                        Proposal { fee: amount, ..p },
                    )
                    &&& (forall|d: Seq<char>, q: Seq<char>|
                        !(d == account_id@ && q == order_id@) ==> final(self).proposal_of(d, q)
                            == old(self).proposal_of(d, q))
                    &&& (forall|d: Seq<char>|
                        final(self).has_proposal_store(d) == old(self).has_proposal_store(d)
                            && final(self).proposal_ids_of(d) == old(self).proposal_ids_of(d))
                    &&& same_ledger(final(self), old(self))
                    &&& same_directory(final(self), old(self))
                    &&& final(self).orders == old(self).orders
                    &&& final(self).orders_pending == old(self).orders_pending
                    &&& final(self).orders_staged == old(self).orders_staged
                    &&& final(self).orders_shipping == old(self).orders_shipping
                    &&& final(self).token_precision == old(self).token_precision
                },
            },
    {
        let updatable: bool = match self.proposals.get(&account_id) {
            None => false,
            Some(ps) => match ps.get(&order_id) {
                None => false,
                Some(p) => match p.status {
                    ProposalStatus::APPROVED => false,
                    _ => true,
                },
            },
        };
        if !updatable {
            return ;
        }
        let mut ps = self.proposals.remove(&account_id).unwrap();
        let i = ps.index_of(&order_id).unwrap();
        let (pkey, p) = ps.remove_at(i);
        let new_proposal = Proposal { fee: amount, ..p };
        proof {
            ps.lemma_dom();
        }
        ps.insert_at(i, pkey, new_proposal);
        self.proposals.insert(account_id, ps);
        proof {
            assert(ps.key_seq() =~= old(self).proposals@[account_id@].key_seq());
        }
    }

    /// Registers the caller as a courier, parsing the vehicle string;
    /// rejects an unknown vehicle class with no state change.
    pub fn register_courier(&mut self, account_id: String, profile: CourierUser) -> (r: Result<
        (),
        InternalError,
    >)
        requires
            old(self).wf(),
        ensures
            final(self).wf(),
            match vehicle_of(profile.vehicle@) {
                None => r == Err::<(), InternalError>(InternalError::InvalidVehicle)
                    && *final(self) == *old(self),
                Some(v) => {
                    &&& r == Ok::<(), InternalError>(())
                    &&& final(self).courier_of(account_id@) == Some(
                        User {
                            name: profile.name,
                            phone: profile.phone,
                            email: profile.email,
                            image: profile.image,
                            courier_profile: Some(
                                Courier {
                                    vehicle: v,
                                    make_model: profile.make_model,
                                    plate_id: profile.plate_id,
                                    on_transit: false,
                                    feedback: None,
                                },
                            ),
                        },
                    )
                    &&& (forall|c: Seq<char>|
                        c != account_id@ ==> final(self).courier_of(c) == old(self).courier_of(c))
                    &&& same_ledger(final(self), old(self))
                    &&& same_proposals(final(self), old(self))
                    &&& final(self).orders == old(self).orders
                    &&& final(self).orders_pending == old(self).orders_pending
                    &&& final(self).orders_staged == old(self).orders_staged
                    &&& final(self).orders_shipping == old(self).orders_shipping
                    &&& final(self).couriers_by_company == old(self).couriers_by_company
                    &&& final(self).courier_companies == old(self).courier_companies
                    &&& final(self).companies == old(self).companies
                    &&& final(self).token_precision == old(self).token_precision
                },
            },
    {
        let vehicle: Vehicle = if profile.vehicle.eq(&"motorcycle".to_owned()) {
            Vehicle::MOTORCYCLE
        } else if profile.vehicle.eq(&"tuktuk".to_owned()) {
            Vehicle::TUKTUK
        } else if profile.vehicle.eq(&"car".to_owned()) {
            Vehicle::CAR
        } else if profile.vehicle.eq(&"pickup".to_owned()) {
            Vehicle::PICKUP
        } else if profile.vehicle.eq(&"lorry".to_owned()) {
            Vehicle::LORRY
        } else {
            return Err(InternalError::InvalidVehicle);
        };
        let courier = Courier {
            vehicle,
            make_model: profile.make_model,
            plate_id: profile.plate_id,
            on_transit: false,
            feedback: None,
        };
        let user = User {
            name: profile.name,
            phone: profile.phone,
            email: profile.email,
            image: profile.image,
            courier_profile: Some(courier),
        };
        self.couriers.insert(account_id, user);
        Ok(())
    }

    /// Puts a company into the directory under `company_id`, creating or
    /// replacing the record.
    pub fn register_company(&mut self, company_id: String, company: Company)
        requires
            old(self).wf(),
        ensures
            final(self).wf(),
            final(self).company_of(company_id@) == Some(company),
            forall|c: Seq<char>|
                c != company_id@ ==> final(self).company_of(c) == old(self).company_of(c),
            same_ledger(final(self), old(self)),
            same_proposals(final(self), old(self)),
            final(self).orders == old(self).orders,
            final(self).orders_pending == old(self).orders_pending,
            final(self).orders_staged == old(self).orders_staged,
            final(self).orders_shipping == old(self).orders_shipping,
            final(self).couriers == old(self).couriers,
            final(self).couriers_by_company == old(self).couriers_by_company,
            final(self).courier_companies == old(self).courier_companies,
            final(self).token_precision == old(self).token_precision,
    {
        self.companies.insert(company_id, company);
    }

    /// The caller (a courier) saves `company_id`: the company's courier
    /// table gains the caller with a zero delivery count, and the company
    /// joins the caller's saved list.  Fails with `CompanyNotFound`, and no
    /// state change, when the company is not in the directory.
    pub fn save_company(&mut self, account_id: String, company_id: String) -> (r: Result<
        (),
        InternalError,
    >)
        requires
            old(self).wf(),
        ensures
            final(self).wf(),
            old(self).company_of(company_id@) is None ==> r == Err::<(), InternalError>(
                InternalError::CompanyNotFound,
            ) && *final(self) == *old(self),
            old(self).company_of(company_id@) is Some ==> {
                &&& r == Ok::<(), InternalError>(())
                &&& final(self).company_courier_of(company_id@, account_id@) == Some(0u64)
                &&& (forall|g: Seq<char>, c: Seq<char>|
                    !(g == company_id@ && c == account_id@) ==> final(self).company_courier_of(
                        g,
                        c,
                    ) == old(self).company_courier_of(g, c))
                &&& final(self).saved_companies_of(account_id@) == old(self).saved_companies_of(
                    account_id@,
                ).push(company_id@)
                &&& (forall|c: Seq<char>|
                    c != account_id@ ==> final(self).saved_companies_of(c) == old(
                        self,
                    ).saved_companies_of(c))
                &&& same_ledger(final(self), old(self))
                &&& same_proposals(final(self), old(self))
                &&& final(self).orders == old(self).orders
                &&& final(self).orders_pending == old(self).orders_pending
                &&& final(self).orders_staged == old(self).orders_staged
                &&& final(self).orders_shipping == old(self).orders_shipping
                &&& final(self).couriers == old(self).couriers
                &&& final(self).companies == old(self).companies
                &&& final(self).token_precision == old(self).token_precision
            },
    {
        if !self.companies.has(&company_id) {
            return Err(InternalError::CompanyNotFound);
        }
        let mut company_couriers: StrMap<u64> = match self.couriers_by_company.remove(&company_id) {
            Some(m) => m,
            None => StrMap::new(),
        };
        company_couriers.insert(account_id.clone(), 0u64);
        self.couriers_by_company.insert(company_id.clone(), company_couriers);
        let ghost saved0 = old(self).saved_companies_of(account_id@);
        let mut saved: Vec<String> = match self.courier_companies.remove(&account_id) {
            Some(v) => v,
            None => Vec::new(),
        };
        saved.push(company_id);
        self.courier_companies.insert(account_id.clone(), saved);
        proof {
            assert(self.saved_companies_of(account_id@) =~= saved0.push(
                self.courier_companies@[account_id@]@.last()@,
            ));
        }
        Ok(())
    }

    /// Evicts up to `limit` candidate couriers from the tail of the
    /// caller's order, deleting each evicted candidate's proposal, keeping
    /// the approved courier's, and returns the evicted identifiers in pop
    /// order.  A no-op answering nothing when the order is unknown or has
    /// no approved courier.
    pub fn clear_order_couriers(&mut self, account_id: String, order_id: String, limit: u16) -> (r:
        Vec<String>)
        requires
            old(self).wf(),
        ensures
            final(self).wf(),
            match old(self).order_of(account_id@, order_id@) {
                None => r@ == Seq::<String>::empty() && *final(self) == *old(self),
                Some(ord) => match ord.courier {
                    None => r@ == Seq::<String>::empty() && *final(self) == *old(self),
                    Some(keep) => clear_post(
                        *old(self),
                        *final(self),
                        account_id@,
                        order_id@,
                        keep@,
                        limit,
                        r@,
                    ),
                },
            },
    {
        let keep: String = match self.orders.get(&account_id) {
            None => {
                return Vec::new();
            },
            Some(sub) => match sub.get(&order_id) {
                None => {
                    return Vec::new();
                },
                Some(entry) => match &entry.0.courier {
                    None => {
                        return Vec::new();
                    },
                    Some(c) => c.clone(),
                },
            },
        };
        // Work out the eviction on a copy of the candidate list first.
        let mut cands: Vec<String> = {
            let sub = self.orders.get(&account_id).unwrap();
            let entry = sub.get(&order_id).unwrap();
            crate::objects::clone_ids(&entry.2)
        };
        let ghost cands0 = cands@;
        let mut removed: Vec<String> = Vec::new();
        let mut page: usize = if (limit as usize) < cands.len() {
            limit as usize
        } else {
            cands.len()
        };
        let ghost take = page as int;
        proof {
            if limit as int >= cands0.len() {
                lemma_evicted_clip(cands0, keep@, limit as int, take);
            }
            assert(removed@ + evicted(cands@, keep@, take) =~= evicted(cands0, keep@, limit as int));
            assert(cands@ =~= cands0.subrange(0, cands0.len() - (take - take)));
        }
        while page > 0
            invariant
                page <= take,
                page <= cands@.len(),
                cands@.len() - page == cands0.len() - take,
                0 <= take <= cands0.len(),
                cands@ == cands0.subrange(0, cands0.len() - (take - page)),
                removed@ + evicted(cands@, keep@, page as int) == evicted(
                    cands0,
                    keep@,
                    limit as int,
                ),
            decreases page,
        {
            let ghost cpre = cands@;
            let ghost rpre = removed@;
            let c = cands.pop().unwrap();
            if !c.eq(&keep) {
                removed.push(c);
                proof {
                    assert(cands@ =~= cpre.drop_last());
                    assert(removed@ =~= rpre + seq![cpre.last()]);
                    assert(removed@ + evicted(cands@, keep@, page as int - 1) =~= rpre + evicted(
                        cpre,
                        keep@,
                        page as int,
                    ));
                }
            } else {
                proof {
                    assert(cands@ =~= cpre.drop_last());
                }
            }
            page = page - 1;
            proof {
                assert(cpre =~= cands0.subrange(0, cands0.len() - (take - (page + 1))));
                assert(cands@.len() == cpre.len() - 1);
                assert forall|i: int| 0 <= i < cands@.len() implies cands@[i] == cands0[i] by {
                    assert(cands@[i] == cpre[i]);
                    assert(cpre[i] == cands0.subrange(
                        0,
                        cands0.len() - (take - (page + 1)),
                    )[i]);
                }
                assert(cands@ =~= cands0.subrange(0, cands0.len() - (take - page)));
            }
        }
        proof {
            assert(evicted(cands@, keep@, 0) =~= Seq::<String>::empty());
            assert(removed@ =~= removed@ + evicted(cands@, keep@, 0));
            assert(removed@ == evicted(cands0, keep@, limit as int));
        }
        // Delete the evicted candidates' proposals on this order.
        let rn = removed.len();
        let ghost mid = *self;
        for idx in 0..rn
            invariant
                rn == removed@.len(),
                self.wf(),
                self.balances == mid.balances,
                self.locked_balances == mid.locked_balances,
                self.orders == mid.orders,
                self.orders_pending == mid.orders_pending,
                self.orders_staged == mid.orders_staged,
                self.orders_shipping == mid.orders_shipping,
                self.couriers == mid.couriers,
                self.couriers_by_company == mid.couriers_by_company,
                self.courier_companies == mid.courier_companies,
                self.companies == mid.companies,
                self.token_precision == mid.token_precision,
                forall|d: Seq<char>, q: Seq<char>|
                    self.proposal_of(d, q) == if q == order_id@ && has_view(
                        removed@.subrange(0, idx as int),
                        d,
                    ) {
                        None::<Proposal>
                    } else {
                        mid.proposal_of(d, q)
                    },
                forall|d: Seq<char>|
                    self.has_proposal_store(d) == mid.has_proposal_store(d),
                forall|d: Seq<char>|
                    !has_view(removed@.subrange(0, idx as int), d) ==> self.proposal_ids_of(d)
                        == mid.proposal_ids_of(d),
        {
            let ghost pre_step = *self;
            let c = &removed[idx];
            let ghost cv = c@;
            match self.proposals.remove(c) {
                Some(mut sub) => {
                    sub.remove(&order_id);
                    self.proposals.insert(c.clone(), sub);
                },
                None => {},
            }
            proof {
                let rpref = removed@.subrange(0, idx as int);
                let rpref1 = removed@.subrange(0, idx as int + 1);
                assert(rpref1 =~= rpref.push(removed@[idx as int]));
                assert(rpref1[idx as int] == removed@[idx as int]);
                assert(has_view(rpref1, cv));
                assert forall|d: Seq<char>, q: Seq<char>|
                    self.proposal_of(d, q) == (if q == order_id@ && has_view(rpref1, d) {
                        None::<Proposal>
                    } else {
                        mid.proposal_of(d, q)
                    }) by {
                    assert(pre_step.proposal_of(d, q) == (if q == order_id@ && has_view(rpref, d) {
                        None::<Proposal>
                    } else {
                        mid.proposal_of(d, q)
                    }));
                    if has_view(rpref, d) {
                        assert(has_view(rpref1, d));
                    }
                    if d != cv {
                        assert(self.proposal_of(d, q) == pre_step.proposal_of(d, q));
                        if has_view(rpref1, d) && !has_view(rpref, d) {
                            assert(rpref1[idx as int]@ == d);
                            let w = choose|w: int| 0 <= w < rpref1.len() && rpref1[w]@ == d;
                            if w < idx as int {
                                assert(rpref[w]@ == d);
                                assert(has_view(rpref, d));
                            } else {
                                assert(rpref1[w] == removed@[idx as int]);
                                assert(false);
                            }
                        }
                    } else {
                        if q == order_id@ {
                            assert(self.proposal_of(d, q) is None);
                        } else {
                            assert(self.proposal_of(d, q) == pre_step.proposal_of(d, q));
                        }
                    }
                }
                assert forall|d: Seq<char>|
                    self.has_proposal_store(d) == mid.has_proposal_store(d) by {
                    assert(self.has_proposal_store(d) == pre_step.has_proposal_store(d));
                }
                assert forall|d: Seq<char>|
                    !has_view(rpref1, d) implies self.proposal_ids_of(d) == mid.proposal_ids_of(
                    d,
                ) by {
                    assert(!has_view(rpref, d));
                    assert(d != cv);
                    assert(self.proposal_ids_of(d) == pre_step.proposal_ids_of(d));
                }
            }
        }
        // Trim the candidate list of the stored order to what is left.
        let ghost before_trim = *self;
        let mut my_orders = self.orders.remove(&account_id).unwrap();
        let j = my_orders.index_of(&order_id).unwrap();
        let (okey, entry) = my_orders.remove_at(j);
        let (ord, items, _old_cands) = entry;
        proof {
            my_orders.lemma_dom();
        }
        my_orders.insert_at(j, okey, (ord, items, cands));
        self.orders.insert(account_id.clone(), my_orders);
        proof {
            assert(my_orders.key_seq() =~= old(self).orders@[account_id@].key_seq());
            assert forall|d: Seq<char>, q: Seq<char>|
                self.proposal_of(d, q) == (if q == order_id@ && has_view(removed@, d) {
                    None::<Proposal>
                } else {
                    old(self).proposal_of(d, q)
                }) by {
                assert(self.proposal_of(d, q) == before_trim.proposal_of(d, q));
                assert(removed@.subrange(0, removed@.len() as int) =~= removed@);
            }
            assert forall|d: Seq<char>| self.has_proposal_store(d) == old(
                self,
            ).has_proposal_store(d) by {
                assert(self.has_proposal_store(d) == before_trim.has_proposal_store(d));
            }
            assert forall|d: Seq<char>| !has_view(removed@, d) implies self.proposal_ids_of(d)
                == old(self).proposal_ids_of(d) by {
                assert(self.proposal_ids_of(d) == before_trim.proposal_ids_of(d));
                assert(removed@.subrange(0, removed@.len() as int) =~= removed@);
            }
        }
        removed
    }

    /// The funds-received boundary: dispatches a parsed instruction and
    /// always answers a decimal string — the computed change on success,
    /// the full received amount (with no state change) on any rejection.
    pub fn ft_on_transfer(&mut self, sender_id: String, amount: u128, msg: Instruction) -> (r:
        String)
        requires
            old(self).wf(),
        ensures
            final(self).wf(),
            match msg {
                Instruction::PlaceOrder(cart, date) => match place_order_outcome(
                    *old(self),
                    sender_id@,
                    amount,
                    cart,
                    date,
                ) {
                    Ok(change) => r@ == spec_decimal(change) && place_order_post(
                        *old(self),
                        *final(self),
                        sender_id,
                        cart.seller,
                        date,
                        cart_total(cart.items@),
                        cart.items@.map_values(|c: CartItem| item_of(c)),
                        cart.list_for_bidding,
                        cart.percentage_insurance,
                        cart.location,
                    ),
                    Err(_) => r@ == spec_decimal(amount) && *final(self) == *old(self),
                },
                Instruction::ApproveProposal(approval) => match approve_outcome(
                    *old(self),
                    sender_id@,
                    amount,
                    approval,
                ) {
                    Ok(change) => r@ == spec_decimal(change) && approve_post(
                        *old(self),
                        *final(self),
                        sender_id@,
                        approval,
                    ),
                    Err(_) => r@ == spec_decimal(amount) && *final(self) == *old(self),
                },
                Instruction::Unknown => r@ == spec_decimal(amount) && *final(self) == *old(self),
            },
    {
        match msg {
            Instruction::PlaceOrder(cart, date) => {
                match self.place_order(sender_id, amount, cart, date) {
                    Ok(change) => crate::to_decimal(change),
                    Err(_) => crate::to_decimal(amount),
                }
            },
            Instruction::ApproveProposal(approval) => {
                match self.approve_proposal(sender_id, amount, approval) {
                    Ok(change) => crate::to_decimal(change),
                    Err(_) => crate::to_decimal(amount),
                }
            },
            Instruction::Unknown => crate::to_decimal(amount),
        }
    }
}

} // verus!
