//! Read-only, paginated listings over the insertion-ordered collections:
//! a buyer's orders, a seller's pending and staged orders, a courier's
//! proposals, the candidate couriers of an order, and the saved-company
//! directory views.

use vstd::prelude::*;

use crate::objects::{
    clone_items, Company, CourierClientView, CourierProfile, OrderBundle, Proposal, UserOrder,
};
use crate::Contract;

verus! {

/// How many entries a window of `limit` starting at `page` takes from a
/// list of `n`.
pub open spec fn page_slice(n: int, page: int, limit: int) -> int {
    if page >= n {
        0
    } else if page + limit <= n {
        limit
    } else {
        n - page
    }
}

/// The window of `limit` identifiers starting at `page`.
pub open spec fn page_window(ids: Seq<Seq<char>>, page: int, limit: int) -> Seq<Seq<char>> {
    if page >= ids.len() {
        Seq::empty()
    } else if page + limit <= ids.len() {
        ids.subrange(page, page + limit)
    } else {
        ids.subrange(page, ids.len() as int)
    }
}

/// The routing entry `oid` of `caller`'s pending table resolves to a
/// stored order.
pub open spec fn pending_resolves(c: &Contract, caller: Seq<char>, oid: Seq<char>) -> bool {
    match c.pending_of(caller, oid) {
        Some(b) => c.order_of(b, oid) is Some,
        None => false,
    }
}

/// The routing entry `oid` of `caller`'s staged table resolves to a
/// stored order.
pub open spec fn staged_resolves(c: &Contract, caller: Seq<char>, oid: Seq<char>) -> bool {
    match c.staged_of(caller, oid) {
        Some(b) => c.order_of(b, oid) is Some,
        None => false,
    }
}

/// Courier `caller`'s bid on `oid` resolves through its client to a
/// stored order.
pub open spec fn proposal_resolves(c: &Contract, caller: Seq<char>, oid: Seq<char>) -> bool {
    match c.proposal_of(caller, oid) {
        Some(p) => c.order_of(p.client@, oid) is Some,
        None => false,
    }
}

/// The identifiers of `ids` whose pending entries resolve, in order.
pub open spec fn resolved_pending_ids(c: &Contract, caller: Seq<char>, ids: Seq<Seq<char>>) -> Seq<
    Seq<char>,
>
    decreases ids.len(),
{
    if ids.len() == 0 {
        Seq::empty()
    } else {
        let rest = resolved_pending_ids(c, caller, ids.drop_last());
        if pending_resolves(c, caller, ids.last()) {
            rest.push(ids.last())
        } else {
            rest
        }
    }
}

/// The identifiers of `ids` whose staged entries resolve, in order.
pub open spec fn resolved_staged_ids(c: &Contract, caller: Seq<char>, ids: Seq<Seq<char>>) -> Seq<
    Seq<char>,
>
    decreases ids.len(),
{
    if ids.len() == 0 {
        Seq::empty()
    } else {
        let rest = resolved_staged_ids(c, caller, ids.drop_last());
        if staged_resolves(c, caller, ids.last()) {
            rest.push(ids.last())
        } else {
            rest
        }
    }
}

/// Candidate `courier` of an order `oid` can be shown to the buyer: a
/// live proposal and a directory profile both exist.
pub open spec fn suggestion_resolves(c: &Contract, oid: Seq<char>, courier: Seq<char>) -> bool {
    &&& c.proposal_of(courier, oid) is Some
    &&& (match c.courier_of(courier) {
        Some(u) => u.courier_profile is Some,
        None => false,
    })
}

/// The candidates of `ids` that can be shown for order `oid`, in order.
pub open spec fn resolved_candidate_ids(c: &Contract, oid: Seq<char>, ids: Seq<Seq<char>>) -> Seq<
    Seq<char>,
>
    decreases ids.len(),
{
    if ids.len() == 0 {
        Seq::empty()
    } else {
        let rest = resolved_candidate_ids(c, oid, ids.drop_last());
        if suggestion_resolves(c, oid, ids.last()) {
            rest.push(ids.last())
        } else {
            rest
        }
    }
}

/// The identifiers of `ids` whose proposals resolve, in order.
pub open spec fn resolved_proposal_ids(c: &Contract, caller: Seq<char>, ids: Seq<Seq<char>>) -> Seq<
    Seq<char>,
>
    decreases ids.len(),
{
    if ids.len() == 0 {
        Seq::empty()
    } else {
        let rest = resolved_proposal_ids(c, caller, ids.drop_last());
        if proposal_resolves(c, caller, ids.last()) {
            rest.push(ids.last())
        } else {
            rest
        }
    }
}

/// `u` faithfully renders buyer `buyer`'s stored order `oid`.
pub open spec fn user_order_matches(
    c: &Contract,
    buyer: Seq<char>,
    oid: Seq<char>,
    u: UserOrder,
) -> bool {
    &&& u.id@ == oid
    &&& c.order_of(buyer, oid) == Some(u.metadata)
    &&& (match c.items_of(buyer, oid) {
        Some(it) => u.products@ == it@,
        None => false,
    })
}

/// `u` faithfully renders the order behind a pending or staged routing
/// entry, resolved through the recorded buyer.
pub open spec fn routed_order_matches(
    c: &Contract,
    buyer: Option<Seq<char>>,
    oid: Seq<char>,
    u: UserOrder,
) -> bool {
    match buyer {
        Some(b) => user_order_matches(c, b, oid, u),
        None => false,
    }
}

/// The identifiers of `ids` that the company directory still lists, in
/// order.
pub open spec fn resolved_company_ids(c: &Contract, ids: Seq<Seq<char>>) -> Seq<Seq<char>>
    decreases ids.len(),
{
    if ids.len() == 0 {
        Seq::empty()
    } else {
        let rest = resolved_company_ids(c, ids.drop_last());
        if c.company_of(ids.last()) is Some {
            rest.push(ids.last())
        } else {
            rest
        }
    }
}

/// The identifiers of `ids` that the courier directory still lists, in
/// order.
pub open spec fn resolved_courier_ids(c: &Contract, ids: Seq<Seq<char>>) -> Seq<Seq<char>>
    decreases ids.len(),
{
    if ids.len() == 0 {
        Seq::empty()
    } else {
        let rest = resolved_courier_ids(c, ids.drop_last());
        if c.courier_of(ids.last()) is Some {
            rest.push(ids.last())
        } else {
            rest
        }
    }
}

impl Contract {
    /// An order as handed to a client, or nothing when the buyer has no
    /// such order.
    fn retrieve_order(&self, id: String, order_id: String) -> (r: Option<UserOrder>)
        requires
            self.wf(),
        ensures
            match self.order_of(id@, order_id@) {
                Some(_) => match r {
                    Some(u) => user_order_matches(self, id@, order_id@, u),
                    None => false,
                },
                None => r is None,
            },
    {
        match self.orders.get(&id) {
            None => None,
            Some(sub) => match sub.get(&order_id) {
                None => None,
                Some(entry) => Some(
                    UserOrder {
                        id: order_id,
                        metadata: entry.0.clone(),
                        products: clone_items(&entry.1),
                    },
                ),
            },
        }
    }

    /// One page of the caller's own orders, in insertion order, or nothing
    /// when the caller has placed none.
    pub fn get_buyer_orders(&self, account_id: String, page: u16, limit: u16) -> (r: Option<
        OrderBundle,
    >)
        requires
            self.wf(),
            page + limit <= u16::MAX,
        ensures
            match r {
                None => !self.has_order_store(account_id@),
                Some(b) => {
                    &&& self.has_order_store(account_id@)
                    &&& b.next_page == page + limit
                    &&& b.orders@.len() == page_slice(
                        self.order_ids_of(account_id@).len() as int,
                        page as int,
                        limit as int,
                    )
                    &&& (forall|i: int|
                        0 <= i < b.orders@.len() ==> user_order_matches(
                            self,
                            account_id@,
                            self.order_ids_of(account_id@)[page + i],
                            b.orders@[i],
                        ))
                },
            },
    {
        let sub = match self.orders.get(&account_id) {
            None => {
                return None;
            },
            Some(s) => s,
        };
        let n = sub.len();
        let start: usize = page as usize;
        let lim: usize = limit as usize;
        let end: usize = if start >= n {
            start
        } else if start + lim < n {
            start + lim
        } else {
            n
        };
        let mut orders: Vec<UserOrder> = Vec::new();
        for j in start..end
            invariant
                self.wf(),
                self.orders@.contains_key(account_id@),
                *sub == self.orders@[account_id@],
                n == sub.key_seq().len(),
                start == page as int,
                start <= end <= n || (start >= n && end == start),
                end - start == page_slice(n as int, page as int, limit as int),
                orders@.len() == j - start,
                forall|i: int|
                    0 <= i < orders@.len() ==> user_order_matches(
                        self,
                        account_id@,
                        self.order_ids_of(account_id@)[start + i],
                        orders@[i],
                    ),
        {
            let key = sub.key_at(j).clone();
            let entry = sub.value_at(j);
            let u = UserOrder {
                id: key,
                metadata: entry.0.clone(),
                products: clone_items(&entry.1),
            };
            orders.push(u);
        }
        Some(OrderBundle { next_page: page + limit, orders })
    }

    /// One page of the orders routed in the caller's pending table, each
    /// resolved to its buyer's stored order; entries that no longer
    /// resolve are skipped.
    pub fn get_pending_orders(&self, account_id: String, page: u16, limit: u16) -> (r: Option<
        OrderBundle,
    >)
        requires
            self.wf(),
            page + limit <= u16::MAX,
        ensures
            match r {
                None => !self.has_pending_store(account_id@),
                Some(b) => {
                    &&& self.has_pending_store(account_id@)
                    &&& b.next_page == page + limit
                    &&& b.orders@.len() == resolved_pending_ids(
                        self,
                        account_id@,
                        page_window(self.pending_ids_of(account_id@), page as int, limit as int),
                    ).len()
                    &&& (forall|i: int|
                        #![trigger b.orders@[i]]
                        0 <= i < b.orders@.len() ==> b.orders@[i].id@ == resolved_pending_ids(
                            self,
                            account_id@,
                            page_window(
                                self.pending_ids_of(account_id@),
                                page as int,
                                limit as int,
                            ),
                        )[i] && routed_order_matches(
                            self,
                            self.pending_of(account_id@, b.orders@[i].id@),
                            b.orders@[i].id@,
                            b.orders@[i],
                        ))
                },
            },
    {
        let sub = match self.orders_pending.get(&account_id) {
            None => {
                return None;
            },
            Some(s) => s,
        };
        let n = sub.len();
        let start: usize = page as usize;
        let lim: usize = limit as usize;
        let end: usize = if start >= n {
            start
        } else if start + lim < n {
            start + lim
        } else {
            n
        };
        let ghost ids = self.pending_ids_of(account_id@);
        let ghost w = page_window(ids, page as int, limit as int);
        proof {
            assert(w.len() == end - start);
            assert(w.take(0) =~= Seq::<Seq<char>>::empty());
        }
        let mut orders: Vec<UserOrder> = Vec::new();
        for j in start..end
            invariant
                self.wf(),
                self.orders_pending@.contains_key(account_id@),
                *sub == self.orders_pending@[account_id@],
                n == sub.key_seq().len(),
                start == page as int,
                start <= end <= n || (start >= n && end == start),
                end <= start + lim,
                lim == limit as int,
                ids == self.pending_ids_of(account_id@),
                w == page_window(ids, page as int, limit as int),
                w.len() == end - start,
                orders@.len() == resolved_pending_ids(self, account_id@, w.take(j - start)).len(),
                forall|i: int|
                    #![trigger orders@[i]]
                    0 <= i < orders@.len() ==> orders@[i].id@ == resolved_pending_ids(
                        self,
                        account_id@,
                        w.take(j - start),
                    )[i] && routed_order_matches(
                        self,
                        self.pending_of(account_id@, orders@[i].id@),
                        orders@[i].id@,
                        orders@[i],
                    ),
        {
            let key = sub.key_at(j).clone();
            let buyer = sub.value_at(j).clone();
            proof {
                sub.lemma_at(j as int);
            }
            let ghost wpre = w.take(j - start);
            let ghost wcur = w.take(j as int + 1 - start);
            proof {
                assert(wcur.drop_last() =~= wpre);
                assert(wcur.last() == ids[j as int]);
                assert(key@ == ids[j as int]);
            }
            match self.retrieve_order(buyer, key) {
                Some(u) => {
                    let ghost uu = u;
                    orders.push(u);
                    proof {
                        assert(pending_resolves(self, account_id@, ids[j as int]));
                        assert(resolved_pending_ids(self, account_id@, wcur)
                            == resolved_pending_ids(self, account_id@, wpre).push(ids[j as int]));
                        assert(orders@.last() == uu);
                    }
                },
                None => {
                    proof {
                        assert(!pending_resolves(self, account_id@, ids[j as int]));
                        assert(resolved_pending_ids(self, account_id@, wcur)
                            == resolved_pending_ids(self, account_id@, wpre));
                    }
                },
            }
        }
        proof {
            assert(w.take(end - start) =~= w);
        }
        Some(OrderBundle { next_page: page + limit, orders })
    }

    /// One page of the orders routed in the caller's staged table; the
    /// staged counterpart of the pending listing.
    pub fn get_staged_orders(&self, account_id: String, page: u16, limit: u16) -> (r: Option<
        OrderBundle,
    >)
        requires
            self.wf(),
            page + limit <= u16::MAX,
        ensures
            match r {
                None => !self.has_staged_store(account_id@),
                Some(b) => {
                    &&& self.has_staged_store(account_id@)
                    &&& b.next_page == page + limit
                    &&& b.orders@.len() == resolved_staged_ids(
                        self,
                        account_id@,
                        page_window(self.staged_ids_of(account_id@), page as int, limit as int),
                    ).len()
                    &&& (forall|i: int|
                        #![trigger b.orders@[i]]
                        0 <= i < b.orders@.len() ==> b.orders@[i].id@ == resolved_staged_ids(
                            self,
                            account_id@,
                            page_window(
                                self.staged_ids_of(account_id@),
                                page as int,
                                limit as int,
                            ),
                        )[i] && routed_order_matches(
                            self,
                            self.staged_of(account_id@, b.orders@[i].id@),
                            b.orders@[i].id@,
                            b.orders@[i],
                        ))
                },
            },
    {
        self.retrieve_staged_order(account_id, page, limit)
    }

    fn retrieve_staged_order(&self, id: String, page: u16, limit: u16) -> (r: Option<OrderBundle>)
        requires
            self.wf(),
            page + limit <= u16::MAX,
        ensures
            match r {
                None => !self.has_staged_store(id@),
                Some(b) => {
                    &&& self.has_staged_store(id@)
                    &&& b.next_page == page + limit
                    &&& b.orders@.len() == resolved_staged_ids(
                        self,
                        id@,
                        page_window(self.staged_ids_of(id@), page as int, limit as int),
                    ).len()
                    &&& (forall|i: int|
                        #![trigger b.orders@[i]]
                        0 <= i < b.orders@.len() ==> b.orders@[i].id@ == resolved_staged_ids(
                            self,
                            id@,
                            page_window(self.staged_ids_of(id@), page as int, limit as int),
                        )[i] && routed_order_matches(
                            self,
                            self.staged_of(id@, b.orders@[i].id@),
                            b.orders@[i].id@,
                            b.orders@[i],
                        ))
                },
            },
    {
        let sub = match self.orders_staged.get(&id) {
            None => {
                return None;
            },
            Some(s) => s,
        };
        let n = sub.len();
        let start: usize = page as usize;
        let lim: usize = limit as usize;
        let end: usize = if start >= n {
            start
        } else if start + lim < n {
            start + lim
        } else {
            n
        };
        let ghost ids = self.staged_ids_of(id@);
        let ghost w = page_window(ids, page as int, limit as int);
        proof {
            assert(w.len() == end - start);
            assert(w.take(0) =~= Seq::<Seq<char>>::empty());
        }
        let mut orders: Vec<UserOrder> = Vec::new();
        for j in start..end
            invariant
                self.wf(),
                self.orders_staged@.contains_key(id@),
                *sub == self.orders_staged@[id@],
                n == sub.key_seq().len(),
                start == page as int,
                start <= end <= n || (start >= n && end == start),
                end <= start + lim,
                lim == limit as int,
                ids == self.staged_ids_of(id@),
                w == page_window(ids, page as int, limit as int),
                w.len() == end - start,
                orders@.len() == resolved_staged_ids(self, id@, w.take(j - start)).len(),
                forall|i: int|
                    #![trigger orders@[i]]
                    0 <= i < orders@.len() ==> orders@[i].id@ == resolved_staged_ids(
                        self,
                        id@,
                        w.take(j - start),
                    )[i] && routed_order_matches(
                        self,
                        self.staged_of(id@, orders@[i].id@),
                        orders@[i].id@,
                        orders@[i],
                    ),
        {
            let key = sub.key_at(j).clone();
            let buyer = sub.value_at(j).clone();
            proof {
                sub.lemma_at(j as int);
            }
            let ghost wpre = w.take(j - start);
            let ghost wcur = w.take(j as int + 1 - start);
            proof {
                assert(wcur.drop_last() =~= wpre);
                assert(wcur.last() == ids[j as int]);
                assert(key@ == ids[j as int]);
            }
            match self.retrieve_order(buyer, key) {
                Some(u) => {
                    let ghost uu = u;
                    orders.push(u);
                    proof {
                        assert(staged_resolves(self, id@, ids[j as int]));
                        assert(resolved_staged_ids(self, id@, wcur) == resolved_staged_ids(
                            self,
                            id@,
                            wpre,
                        ).push(ids[j as int]));
                        assert(orders@.last() == uu);
                    }
                },
                None => {
                    proof {
                        assert(!staged_resolves(self, id@, ids[j as int]));
                        assert(resolved_staged_ids(self, id@, wcur) == resolved_staged_ids(
                            self,
                            id@,
                            wpre,
                        ));
                    }
                },
            }
        }
        proof {
            assert(w.take(end - start) =~= w);
        }
        Some(OrderBundle { next_page: page + limit, orders })
    }

    /// One page of the orders the caller (a courier) has open proposals
    /// on, each resolved through the proposal's client; entries that no
    /// longer resolve are skipped.
    pub fn get_proposals(&self, account_id: String, page: u16, limit: u16) -> (r: Option<
        OrderBundle,
    >)
        requires
            self.wf(),
            page + limit <= u16::MAX,
        ensures
            match r {
                None => !self.has_proposal_store(account_id@),
                Some(b) => {
                    &&& self.has_proposal_store(account_id@)
                    &&& b.next_page == page + limit
                    &&& b.orders@.len() == resolved_proposal_ids(
                        self,
                        account_id@,
                        page_window(self.proposal_ids_of(account_id@), page as int, limit as int),
                    ).len()
                    &&& (forall|i: int|
                        #![trigger b.orders@[i]]
                        0 <= i < b.orders@.len() ==> b.orders@[i].id@ == resolved_proposal_ids(
                            self,
                            account_id@,
                            page_window(
                                self.proposal_ids_of(account_id@),
                                page as int,
                                limit as int,
                            ),
                        )[i] && (match self.proposal_of(account_id@, b.orders@[i].id@) {
                            Some(p) => user_order_matches(
                                self,
                                p.client@,
                                b.orders@[i].id@,
                                b.orders@[i],
                            ),
                            None => false,
                        }))
                },
            },
    {
        let sub = match self.proposals.get(&account_id) {
            None => {
                return None;
            },
            Some(s) => s,
        };
        let n = sub.len();
        let start: usize = page as usize;
        let lim: usize = limit as usize;
        let end: usize = if start >= n {
            start
        } else if start + lim < n {
            start + lim
        } else {
            n
        };
        let ghost ids = self.proposal_ids_of(account_id@);
        let ghost w = page_window(ids, page as int, limit as int);
        proof {
            assert(w.len() == end - start);
            assert(w.take(0) =~= Seq::<Seq<char>>::empty());
        }
        let mut orders: Vec<UserOrder> = Vec::new();
        for j in start..end
            invariant
                self.wf(),
                self.proposals@.contains_key(account_id@),
                *sub == self.proposals@[account_id@],
                n == sub.key_seq().len(),
                start == page as int,
                start <= end <= n || (start >= n && end == start),
                end <= start + lim,
                lim == limit as int,
                ids == self.proposal_ids_of(account_id@),
                w == page_window(ids, page as int, limit as int),
                w.len() == end - start,
                orders@.len() == resolved_proposal_ids(self, account_id@, w.take(j - start)).len(),
                forall|i: int|
                    #![trigger orders@[i]]
                    0 <= i < orders@.len() ==> orders@[i].id@ == resolved_proposal_ids(
                        self,
                        account_id@,
                        w.take(j - start),
                    )[i] && (match self.proposal_of(account_id@, orders@[i].id@) {
                        Some(p) => user_order_matches(
                            self,
                            p.client@,
                            orders@[i].id@,
                            orders@[i],
                        ),
                        None => false,
                    }),
        {
            let key = sub.key_at(j).clone();
            let client = sub.value_at(j).client.clone();
            proof {
                sub.lemma_at(j as int);
            }
            let ghost wpre = w.take(j - start);
            let ghost wcur = w.take(j as int + 1 - start);
            proof {
                assert(wcur.drop_last() =~= wpre);
                assert(wcur.last() == ids[j as int]);
                assert(key@ == ids[j as int]);
            }
            match self.retrieve_order(client, key) {
                Some(u) => {
                    let ghost uu = u;
                    orders.push(u);
                    proof {
                        assert(proposal_resolves(self, account_id@, ids[j as int]));
                        assert(resolved_proposal_ids(self, account_id@, wcur)
                            == resolved_proposal_ids(self, account_id@, wpre).push(
                            ids[j as int],
                        ));
                        assert(orders@.last() == uu);
                    }
                },
                None => {
                    proof {
                        assert(!proposal_resolves(self, account_id@, ids[j as int]));
                        assert(resolved_proposal_ids(self, account_id@, wcur)
                            == resolved_proposal_ids(self, account_id@, wpre));
                    }
                },
            }
        }
        proof {
            assert(w.take(end - start) =~= w);
        }
        Some(OrderBundle { next_page: page + limit, orders })
    }

    /// One page of a buyer's order's candidate couriers, each joined with
    /// their proposed fee and directory profile; candidates without a live
    /// proposal or profile are skipped.
    pub fn get_shipping_suggestions(
        &self,
        buyer_id: String,
        order_id: String,
        page: u16,
        limit: u16,
    ) -> (r: Vec<CourierClientView>)
        requires
            self.wf(),
        ensures
            self.order_of(buyer_id@, order_id@) is None ==> r@ == Seq::<CourierClientView>::empty(),
            self.order_of(buyer_id@, order_id@) is Some ==> r@.len() == resolved_candidate_ids(
                self,
                order_id@,
                page_window(
                    self.candidates_of(buyer_id@, order_id@).unwrap()@.map_values(
                        |s: String| s@,
                    ),
                    page as int,
                    limit as int,
                ),
            ).len() && (forall|i: int|
                #![trigger r@[i]]
                0 <= i < r@.len() ==> r@[i].id@ == resolved_candidate_ids(
                    self,
                    order_id@,
                    page_window(
                        self.candidates_of(buyer_id@, order_id@).unwrap()@.map_values(
                            |s: String| s@,
                        ),
                        page as int,
                        limit as int,
                    ),
                )[i]),
            forall|i: int|
                #![trigger r@[i]]
                0 <= i < r@.len() ==> (match (self.proposal_of(r@[i].id@, order_id@),
                self.courier_of(r@[i].id@)) {
                    (Some(p), Some(u)) => r@[i].proposed_fee == p.fee && u.name@ == r@[i].name@
                        && u.image@ == r@[i].image@ && u.phone@ == r@[i].phone@ && (
                    match u.courier_profile {
                        Some(cp) => cp.on_transit == r@[i].on_transit && cp.feedback
                            == r@[i].feedback,
                        None => false,
                    }),
                    _ => false,
                }),
    {
        let mut suggestions: Vec<CourierClientView> = Vec::new();
        let cands: &Vec<String> = match self.orders.get(&buyer_id) {
            None => {
                return suggestions;
            },
            Some(sub) => match sub.get(&order_id) {
                None => {
                    return suggestions;
                },
                Some(entry) => &entry.2,
            },
        };
        let n = cands.len();
        let start: usize = page as usize;
        let lim: usize = limit as usize;
        let end: usize = if start >= n {
            start
        } else if start + lim < n {
            start + lim
        } else {
            n
        };
        let ghost ids = cands@.map_values(|s: String| s@);
        let ghost w = page_window(ids, page as int, limit as int);
        proof {
            assert(w.len() == end - start);
            assert(w.take(0) =~= Seq::<Seq<char>>::empty());
        }
        for j in start..end
            invariant
                self.wf(),
                n == cands@.len(),
                self.order_of(buyer_id@, order_id@) is Some,
                (match self.candidates_of(buyer_id@, order_id@) {
                    Some(v) => v == *cands,
                    None => false,
                }),
                ids == cands@.map_values(|s: String| s@),
                w == page_window(ids, page as int, limit as int),
                start == page as int,
                start <= end <= n || (start >= n && end == start),
                w.len() == end - start,
                suggestions@.len() == resolved_candidate_ids(
                    self,
                    order_id@,
                    w.take(j - start),
                ).len(),
                forall|i: int|
                    #![trigger suggestions@[i]]
                    0 <= i < suggestions@.len() ==> suggestions@[i].id@ == resolved_candidate_ids(
                        self,
                        order_id@,
                        w.take(j - start),
                    )[i],
                forall|i: int|
                    #![trigger suggestions@[i]]
                    0 <= i < suggestions@.len() ==> (match (self.proposal_of(
                        suggestions@[i].id@,
                        order_id@,
                    ), self.courier_of(suggestions@[i].id@)) {
                        (Some(p), Some(u)) => suggestions@[i].proposed_fee == p.fee && u.name@
                            == suggestions@[i].name@ && u.image@ == suggestions@[i].image@
                            && u.phone@ == suggestions@[i].phone@ && (match u.courier_profile {
                            Some(cp) => cp.on_transit == suggestions@[i].on_transit && cp.feedback
                                == suggestions@[i].feedback,
                            None => false,
                        }),
                        _ => false,
                    }),
        {
            let courier_id = &cands[j];
            let ghost wpre = w.take(j - start);
            let ghost wcur = w.take(j as int + 1 - start);
            proof {
                assert(wcur.drop_last() =~= wpre);
                assert(wcur.last() == ids[j as int]);
                assert(courier_id@ == ids[j as int]);
            }
            let fee_opt: Option<u128> = match self.proposals.get(courier_id) {
                None => None,
                Some(ps) => match ps.get(&order_id) {
                    None => None,
                    Some(p) => Some(p.fee),
                },
            };
            match fee_opt {
                None => {
                    proof {
                        assert(!suggestion_resolves(self, order_id@, ids[j as int]));
                        assert(resolved_candidate_ids(self, order_id@, wcur)
                            == resolved_candidate_ids(self, order_id@, wpre));
                    }
                },
                Some(fee) => match self.couriers.get(courier_id) {
                    None => {
                        proof {
                            assert(!suggestion_resolves(self, order_id@, ids[j as int]));
                            assert(resolved_candidate_ids(self, order_id@, wcur)
                                == resolved_candidate_ids(self, order_id@, wpre));
                        }
                    },
                    Some(user) => match &user.courier_profile {
                        None => {
                            proof {
                                assert(!suggestion_resolves(self, order_id@, ids[j as int]));
                                assert(resolved_candidate_ids(self, order_id@, wcur)
                                    == resolved_candidate_ids(self, order_id@, wpre));
                            }
                        },
                        Some(profile) => {
                            let view = CourierClientView {
                                id: courier_id.clone(),
                                name: user.name.clone(),
                                image: user.image.clone(),
                                phone: user.phone.clone(),
                                on_transit: profile.on_transit,
                                feedback: profile.feedback,
                                proposed_fee: fee,
                            };
                            suggestions.push(view);
                            proof {
                                assert(suggestion_resolves(self, order_id@, ids[j as int]));
                                assert(resolved_candidate_ids(self, order_id@, wcur)
                                    == resolved_candidate_ids(self, order_id@, wpre).push(
                                    ids[j as int],
                                ));
                            }
                        },
                    },
                },
            }
        }
        proof {
            assert(w.take(end - start) =~= w);
        }
        suggestions
    }

    /// Read-only view of courier `courier_id`'s bid on `order_id`.
    pub fn get_proposal(&self, courier_id: &String, order_id: &String) -> (r: Option<Proposal>)
        requires
            self.wf(),
        ensures
            r == self.proposal_of(courier_id@, order_id@),
    {
        match self.proposals.get(courier_id) {
            None => None,
            Some(ps) => match ps.get(order_id) {
                None => None,
                Some(p) => Some(p.clone()),
            },
        }
    }

    /// One page of the companies the caller (a courier) has saved; saved
    /// identifiers no longer in the directory are skipped.
    pub fn courier_saved_companies(&self, account_id: String, page: u8, limit: u8) -> (r: Option<
        Vec<Company>,
    >)
        requires
            self.wf(),
        ensures
            match r {
                Some(v) => {
                    &&& v@.len() == resolved_company_ids(
                        self,
                        page_window(
                            self.saved_companies_of(account_id@),
                            page as int,
                            limit as int,
                        ),
                    ).len()
                    &&& (forall|i: int|
                        #![trigger v@[i]]
                        0 <= i < v@.len() ==> self.company_of(
                            resolved_company_ids(
                                self,
                                page_window(
                                    self.saved_companies_of(account_id@),
                                    page as int,
                                    limit as int,
                                ),
                            )[i],
                        ) == Some(v@[i]))
                },
                None => false,
            },
    {
        let mut companies: Vec<Company> = Vec::new();
        let saved: &Vec<String> = match self.courier_companies.get(&account_id) {
            None => {
                proof {
                    assert(page_window(
                        self.saved_companies_of(account_id@),
                        page as int,
                        limit as int,
                    ) =~= Seq::<Seq<char>>::empty());
                }
                return Some(companies);
            },
            Some(v) => v,
        };
        let n = saved.len();
        let start: usize = page as usize;
        let lim: usize = limit as usize;
        let end: usize = if start >= n {
            start
        } else if start + lim < n {
            start + lim
        } else {
            n
        };
        let ghost ids = self.saved_companies_of(account_id@);
        let ghost w = page_window(ids, page as int, limit as int);
        proof {
            assert(w.len() == end - start);
            assert(w.take(0) =~= Seq::<Seq<char>>::empty());
        }
        for j in start..end
            invariant
                self.wf(),
                self.courier_companies@.contains_key(account_id@),
                *saved == self.courier_companies@[account_id@],
                n == saved@.len(),
                start == page as int,
                start <= end <= n || (start >= n && end == start),
                ids == self.saved_companies_of(account_id@),
                w == page_window(ids, page as int, limit as int),
                w.len() == end - start,
                companies@.len() == resolved_company_ids(self, w.take(j - start)).len(),
                forall|i: int|
                    #![trigger companies@[i]]
                    0 <= i < companies@.len() ==> self.company_of(
                        resolved_company_ids(self, w.take(j - start))[i],
                    ) == Some(companies@[i]),
        {
            let ghost wpre = w.take(j - start);
            let ghost wcur = w.take(j as int + 1 - start);
            proof {
                assert(wcur.drop_last() =~= wpre);
                assert(wcur.last() == ids[j as int]);
                assert(saved@[j as int]@ == ids[j as int]);
            }
            match self.companies.get(&saved[j]) {
                None => {
                    proof {
                        assert(resolved_company_ids(self, wcur) == resolved_company_ids(
                            self,
                            wpre,
                        ));
                    }
                },
                Some(company) => {
                    companies.push(company.clone());
                    proof {
                        assert(self.company_of(ids[j as int]) == Some(
                            companies@[companies@.len() - 1],
                        ));
                        assert(resolved_company_ids(self, wcur) == resolved_company_ids(
                            self,
                            wpre,
                        ).push(ids[j as int]));
                    }
                },
            }
        }
        proof {
            assert(w.take(end - start) =~= w);
        }
        Some(companies)
    }

    /// One page of a company's saved couriers, each with their delivery
    /// count and directory profile; couriers without a profile are
    /// skipped.
    pub fn company_couriers(&self, company_id: String, page: u8, limit: u8) -> (r: Option<
        Vec<CourierProfile>,
    >)
        requires
            self.wf(),
        ensures
            match r {
                Some(v) => {
                    &&& v@.len() == resolved_courier_ids(
                        self,
                        page_window(
                            self.company_courier_ids_of(company_id@),
                            page as int,
                            limit as int,
                        ),
                    ).len()
                    &&& (forall|i: int|
                        #![trigger v@[i]]
                        0 <= i < v@.len() ==> {
                            let k = resolved_courier_ids(
                                self,
                                page_window(
                                    self.company_courier_ids_of(company_id@),
                                    page as int,
                                    limit as int,
                                ),
                            )[i];
                            self.courier_of(k) == Some(v@[i].profile)
                                && self.company_courier_of(company_id@, k) == Some(
                                v@[i].deliveries,
                            )
                        })
                },
                None => false,
            },
    {
        let mut couriers: Vec<CourierProfile> = Vec::new();
        let sub = match self.couriers_by_company.get(&company_id) {
            None => {
                proof {
                    assert(page_window(
                        self.company_courier_ids_of(company_id@),
                        page as int,
                        limit as int,
                    ) =~= Seq::<Seq<char>>::empty());
                }
                return Some(couriers);
            },
            Some(s) => s,
        };
        let n = sub.len();
        let start: usize = page as usize;
        let lim: usize = limit as usize;
        let end: usize = if start >= n {
            start
        } else if start + lim < n {
            start + lim
        } else {
            n
        };
        let ghost ids = self.company_courier_ids_of(company_id@);
        let ghost w = page_window(ids, page as int, limit as int);
        proof {
            assert(w.len() == end - start);
            assert(w.take(0) =~= Seq::<Seq<char>>::empty());
        }
        for j in start..end
            invariant
                self.wf(),
                self.couriers_by_company@.contains_key(company_id@),
                *sub == self.couriers_by_company@[company_id@],
                n == sub.key_seq().len(),
                start == page as int,
                start <= end <= n || (start >= n && end == start),
                ids == self.company_courier_ids_of(company_id@),
                w == page_window(ids, page as int, limit as int),
                w.len() == end - start,
                couriers@.len() == resolved_courier_ids(self, w.take(j - start)).len(),
                forall|i: int|
                    #![trigger couriers@[i]]
                    0 <= i < couriers@.len() ==> {
                        let k = resolved_courier_ids(self, w.take(j - start))[i];
                        self.courier_of(k) == Some(couriers@[i].profile)
                            && self.company_courier_of(company_id@, k) == Some(
                            couriers@[i].deliveries,
                        )
                    },
        {
            let courier_id = sub.key_at(j).clone();
            let deliveries: u64 = *sub.value_at(j);
            proof {
                sub.lemma_at(j as int);
            }
            let ghost wpre = w.take(j - start);
            let ghost wcur = w.take(j as int + 1 - start);
            proof {
                assert(wcur.drop_last() =~= wpre);
                assert(wcur.last() == ids[j as int]);
                assert(courier_id@ == ids[j as int]);
            }
            match self.couriers.get(&courier_id) {
                None => {
                    proof {
                        assert(resolved_courier_ids(self, wcur) == resolved_courier_ids(
                            self,
                            wpre,
                        ));
                    }
                },
                Some(user) => {
                    let profile = CourierProfile { deliveries, profile: user.clone() };
                    couriers.push(profile);
                    proof {
                        assert(self.courier_of(ids[j as int]) == Some(
                            couriers@[couriers@.len() - 1].profile,
                        ));
                        assert(self.company_courier_of(company_id@, ids[j as int]) == Some(
                            couriers@[couriers@.len() - 1].deliveries,
                        ));
                        assert(resolved_courier_ids(self, wcur) == resolved_courier_ids(
                            self,
                            wpre,
                        ).push(ids[j as int]));
                    }
                },
            }
        }
        proof {
            assert(w.take(end - start) =~= w);
        }
        Some(couriers)
    }
}

} // verus!
