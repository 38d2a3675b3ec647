//! Accounting and workflow engine of an escrow-backed delivery marketplace.
//!
//! Buyers pay into escrow when placing an order, couriers bid to fulfil it,
//! a winning bid locks the payout, and funds are released or refunded as the
//! order's status advances.  The host's persistent key-value storage is
//! modelled by [`store::StrMap`], an insertion-ordered map keyed by
//! identifier strings; the host hands every entry point the caller's
//! identifier and, where one is needed, the current timestamp.

use vstd::prelude::*;

pub mod enums;
pub mod escrow;
pub mod laws;
pub mod objects;
pub mod store;
pub mod transaction;
pub mod views;
pub mod workflow;

use crate::objects::{Account, Company, LockedAmount, Order, OrderItem, Proposal, User};
use crate::store::StrMap;

verus! {

/// The entire state of the marketplace engine.
///
/// Every collection is an insertion-ordered map keyed by an identifier
/// string: an account, order, company or courier identifier.
pub struct Contract {
    /// Decimal scale of the token the marketplace is paid in.
    pub token_precision: u8,
    /// Per-account ledger records.
    pub balances: StrMap<Account>,
    /// Per-account escrow holds, keyed by escrow (order) identifier.
    pub locked_balances: StrMap<StrMap<LockedAmount>>,
    /// Per-buyer orders: metadata, fixed line items, candidate couriers.
    pub orders: StrMap<StrMap<(Order, Vec<OrderItem>, Vec<String>)>>,
    /// Per-seller routing table from order identifier to buyer identifier.
    pub orders_pending: StrMap<StrMap<String>>,
    /// Per-seller routing table of staged orders.
    pub orders_staged: StrMap<StrMap<String>>,
    /// Per-seller routing table of shipping orders.
    pub orders_shipping: StrMap<StrMap<String>>,
    /// Directory of couriers.
    pub couriers: StrMap<User>,
    /// Couriers saved under a company, with their delivery count.
    pub couriers_by_company: StrMap<StrMap<u64>>,
    /// Companies a courier has saved.
    pub courier_companies: StrMap<Vec<String>>,
    /// Directory of companies.
    pub companies: StrMap<Company>,
    /// Per-courier bids, keyed by order identifier.
    pub proposals: StrMap<StrMap<Proposal>>,
}

impl Contract {
    /// Well-formedness: every store has distinct keys, and for every
    /// account that owns escrow holds there is a ledger record whose
    /// `total_locked_balance` covers the sum of the holds.  (Only an
    /// inequality: re-locking an escrow identifier overwrites the old hold
    /// without crediting it back, so the recorded total may exceed the sum.)
    pub open spec fn wf(&self) -> bool {
        &&& self.balances.wf()
        &&& self.locked_balances.wf()
        &&& (forall|a: Seq<char>|
            #[trigger] self.locked_balances@.contains_key(a) ==> self.locked_balances@[a].wf())
        &&& self.orders.wf()
        &&& (forall|b: Seq<char>| #[trigger] self.orders@.contains_key(b) ==> self.orders@[b].wf())
        &&& self.orders_pending.wf()
        &&& (forall|s: Seq<char>|
            #[trigger] self.orders_pending@.contains_key(s) ==> self.orders_pending@[s].wf())
        &&& self.orders_staged.wf()
        &&& (forall|s: Seq<char>|
            #[trigger] self.orders_staged@.contains_key(s) ==> self.orders_staged@[s].wf())
        &&& self.orders_shipping.wf()
        &&& (forall|s: Seq<char>|
            #[trigger] self.orders_shipping@.contains_key(s) ==> self.orders_shipping@[s].wf())
        &&& self.couriers.wf()
        &&& self.couriers_by_company.wf()
        &&& (forall|c: Seq<char>|
            #[trigger] self.couriers_by_company@.contains_key(c)
                ==> self.couriers_by_company@[c].wf())
        &&& self.courier_companies.wf()
        &&& self.companies.wf()
        &&& self.proposals.wf()
        &&& (forall|c: Seq<char>|
            #[trigger] self.proposals@.contains_key(c) ==> self.proposals@[c].wf())
        &&& (forall|a: Seq<char>|
            #[trigger] self.locked_balances@.contains_key(a) ==> self.balances@.contains_key(a)
                && crate::escrow::sum_locked(self.locked_balances@[a])
                <= self.balances@[a].total_locked_balance)
    }

    /// A ledger record exists for `a`.
    pub open spec fn has_account(&self, a: Seq<char>) -> bool {
        self.balances@.contains_key(a)
    }

    /// Released, withdrawable funds of `a`; zero while no record exists.
    pub open spec fn balance_of(&self, a: Seq<char>) -> u128 {
        if self.balances@.contains_key(a) {
            self.balances@[a].balance
        } else {
            0
        }
    }

    /// Recorded total of outstanding locks of `a`; zero while no record
    /// exists.
    pub open spec fn locked_total_of(&self, a: Seq<char>) -> u128 {
        if self.balances@.contains_key(a) {
            self.balances@[a].total_locked_balance
        } else {
            0
        }
    }

    /// A lock collection exists for `a` (it may be empty).
    pub open spec fn has_lock_store(&self, a: Seq<char>) -> bool {
        self.locked_balances@.contains_key(a)
    }

    /// The live escrow hold of payer `a` under escrow identifier `e`.
    pub open spec fn lock_of(&self, a: Seq<char>, e: Seq<char>) -> Option<LockedAmount> {
        if self.locked_balances@.contains_key(a) && self.locked_balances@[a]@.contains_key(e) {
            Some(self.locked_balances@[a]@[e])
        } else {
            None
        }
    }

    /// An order collection exists for buyer `b`.
    pub open spec fn has_order_store(&self, b: Seq<char>) -> bool {
        self.orders@.contains_key(b)
    }

    /// The order identifiers of buyer `b`, in insertion order.
    pub open spec fn order_ids_of(&self, b: Seq<char>) -> Seq<Seq<char>> {
        if self.orders@.contains_key(b) {
            self.orders@[b].key_seq()
        } else {
            Seq::empty()
        }
    }

    /// The metadata of buyer `b`'s order `o`.
    pub open spec fn order_of(&self, b: Seq<char>, o: Seq<char>) -> Option<Order> {
        if self.orders@.contains_key(b) && self.orders@[b]@.contains_key(o) {
            Some(self.orders@[b]@[o].0)
        } else {
            None
        }
    }

    /// The fixed line items of buyer `b`'s order `o`.
    pub open spec fn items_of(&self, b: Seq<char>, o: Seq<char>) -> Option<Vec<OrderItem>> {
        if self.orders@.contains_key(b) && self.orders@[b]@.contains_key(o) {
            Some(self.orders@[b]@[o].1)
        } else {
            None
        }
    }

    /// The candidate couriers of buyer `b`'s order `o`, in bid order.
    pub open spec fn candidates_of(&self, b: Seq<char>, o: Seq<char>) -> Option<Vec<String>> {
        if self.orders@.contains_key(b) && self.orders@[b]@.contains_key(o) {
            Some(self.orders@[b]@[o].2)
        } else {
            None
        }
    }

    /// A pending routing table exists for seller `s`.
    pub open spec fn has_pending_store(&self, s: Seq<char>) -> bool {
        self.orders_pending@.contains_key(s)
    }

    /// The buyer recorded for order `o` in seller `s`'s pending table.
    pub open spec fn pending_of(&self, s: Seq<char>, o: Seq<char>) -> Option<Seq<char>> {
        if self.orders_pending@.contains_key(s) && self.orders_pending@[s]@.contains_key(o) {
            Some(self.orders_pending@[s]@[o]@)
        } else {
            None
        }
    }

    /// The order identifiers in seller `s`'s pending table, in insertion
    /// order.
    pub open spec fn pending_ids_of(&self, s: Seq<char>) -> Seq<Seq<char>> {
        if self.orders_pending@.contains_key(s) {
            self.orders_pending@[s].key_seq()
        } else {
            Seq::empty()
        }
    }

    /// A staged routing table exists for seller `s`.
    pub open spec fn has_staged_store(&self, s: Seq<char>) -> bool {
        self.orders_staged@.contains_key(s)
    }

    /// The buyer recorded for order `o` in seller `s`'s staged table.
    pub open spec fn staged_of(&self, s: Seq<char>, o: Seq<char>) -> Option<Seq<char>> {
        if self.orders_staged@.contains_key(s) && self.orders_staged@[s]@.contains_key(o) {
            Some(self.orders_staged@[s]@[o]@)
        } else {
            None
        }
    }

    /// The order identifiers in seller `s`'s staged table, in insertion
    /// order.
    pub open spec fn staged_ids_of(&self, s: Seq<char>) -> Seq<Seq<char>> {
        if self.orders_staged@.contains_key(s) {
            self.orders_staged@[s].key_seq()
        } else {
            Seq::empty()
        }
    }

    /// The couriers saved under company `c`, in insertion order.
    pub open spec fn company_courier_ids_of(&self, c: Seq<char>) -> Seq<Seq<char>> {
        if self.couriers_by_company@.contains_key(c) {
            self.couriers_by_company@[c].key_seq()
        } else {
            Seq::empty()
        }
    }

    /// A proposal collection exists for courier `c`.
    pub open spec fn has_proposal_store(&self, c: Seq<char>) -> bool {
        self.proposals@.contains_key(c)
    }

    /// The order identifiers courier `c` has bids on, in insertion order.
    pub open spec fn proposal_ids_of(&self, c: Seq<char>) -> Seq<Seq<char>> {
        if self.proposals@.contains_key(c) {
            self.proposals@[c].key_seq()
        } else {
            Seq::empty()
        }
    }

    /// Courier `c`'s bid on order `o`.
    pub open spec fn proposal_of(&self, c: Seq<char>, o: Seq<char>) -> Option<Proposal> {
        if self.proposals@.contains_key(c) && self.proposals@[c]@.contains_key(o) {
            Some(self.proposals@[c]@[o])
        } else {
            None
        }
    }

    /// The delivery count recorded for `courier` under company `comp`.
    pub open spec fn company_courier_of(&self, comp: Seq<char>, courier: Seq<char>) -> Option<
        u64,
    > {
        if self.couriers_by_company@.contains_key(comp) && self.couriers_by_company@[
            comp
        ]@.contains_key(courier) {
            Some(self.couriers_by_company@[comp]@[courier])
        } else {
            None
        }
    }

    /// The companies courier `c` has saved, in insertion order.
    pub open spec fn saved_companies_of(&self, c: Seq<char>) -> Seq<Seq<char>> {
        if self.courier_companies@.contains_key(c) {
            self.courier_companies@[c]@.map_values(|s: String| s@)
        } else {
            Seq::empty()
        }
    }

    /// The directory record of company `c`.
    pub open spec fn company_of(&self, c: Seq<char>) -> Option<Company> {
        if self.companies@.contains_key(c) {
            Some(self.companies@[c])
        } else {
            None
        }
    }

    /// The directory record of courier `c`.
    pub open spec fn courier_of(&self, c: Seq<char>) -> Option<User> {
        if self.couriers@.contains_key(c) {
            Some(self.couriers@[c])
        } else {
            None
        }
    }
}

/// The two ledger stores are untouched.
pub open spec fn same_ledger(a: &Contract, b: &Contract) -> bool {
    a.balances == b.balances && a.locked_balances == b.locked_balances
}

/// The order catalog and its routing tables are untouched.
pub open spec fn same_catalog(a: &Contract, b: &Contract) -> bool {
    &&& a.orders == b.orders
    &&& a.orders_pending == b.orders_pending
    &&& a.orders_staged == b.orders_staged
    &&& a.orders_shipping == b.orders_shipping
}

/// The courier and company directory is untouched.
pub open spec fn same_directory(a: &Contract, b: &Contract) -> bool {
    &&& a.couriers == b.couriers
    &&& a.couriers_by_company == b.couriers_by_company
    &&& a.courier_companies == b.courier_companies
    &&& a.companies == b.companies
}

/// The bid collections are untouched.
pub open spec fn same_proposals(a: &Contract, b: &Contract) -> bool {
    a.proposals == b.proposals
}

impl Default for Contract {
    /// A fresh engine: every store empty, token precision 18.
    fn default() -> (r: Self)
        ensures
            r.wf(),
            r.token_precision == 18,
            r.balances@ == Map::<Seq<char>, Account>::empty(),
            r.locked_balances@ == Map::<Seq<char>, StrMap<LockedAmount>>::empty(),
            r.orders@ == Map::<Seq<char>, StrMap<(Order, Vec<OrderItem>, Vec<String>)>>::empty(),
            r.orders_pending@ == Map::<Seq<char>, StrMap<String>>::empty(),
            r.orders_staged@ == Map::<Seq<char>, StrMap<String>>::empty(),
            r.orders_shipping@ == Map::<Seq<char>, StrMap<String>>::empty(),
            r.couriers@ == Map::<Seq<char>, User>::empty(),
            r.couriers_by_company@ == Map::<Seq<char>, StrMap<u64>>::empty(),
            r.courier_companies@ == Map::<Seq<char>, Vec<String>>::empty(),
            r.companies@ == Map::<Seq<char>, Company>::empty(),
            r.proposals@ == Map::<Seq<char>, StrMap<Proposal>>::empty(),
    {
        Contract {
            token_precision: 18,
            balances: StrMap::new(),
            locked_balances: StrMap::new(),
            orders: StrMap::new(),
            orders_pending: StrMap::new(),
            orders_staged: StrMap::new(),
            orders_shipping: StrMap::new(),
            couriers: StrMap::new(),
            couriers_by_company: StrMap::new(),
            courier_companies: StrMap::new(),
            companies: StrMap::new(),
            proposals: StrMap::new(),
        }
    }
}

/// Decimal digits of `n`, most significant first.
pub open spec fn spec_decimal(n: u128) -> Seq<char>
    decreases n,
{
    if n < 10 {
        seq![digit_char(n as int)]
    } else {
        spec_decimal(n / 10).push(digit_char((n % 10) as int))
    }
}

/// The ASCII digit for a value in `0 ..= 9`.
pub open spec fn digit_char(d: int) -> char {
    if d == 0 {
        '0'
    } else if d == 1 {
        '1'
    } else if d == 2 {
        '2'
    } else if d == 3 {
        '3'
    } else if d == 4 {
        '4'
    } else if d == 5 {
        '5'
    } else if d == 6 {
        '6'
    } else if d == 7 {
        '7'
    } else if d == 8 {
        '8'
    } else {
        '9'
    }
}

fn exec_digit_char(d: u128) -> (c: char)
    requires
        d < 10,
    ensures
        c == digit_char(d as int),
{
    if d == 0 {
        '0'
    } else if d == 1 {
        '1'
    } else if d == 2 {
        '2'
    } else if d == 3 {
        '3'
    } else if d == 4 {
        '4'
    } else if d == 5 {
        '5'
    } else if d == 6 {
        '6'
    } else if d == 7 {
        '7'
    } else if d == 8 {
        '8'
    } else {
        '9'
    }
}

/// Relies on `String::push`: appends the character to the end.
#[verifier::external_body]
fn push_char(s: &mut String, c: char)
    ensures
        final(s)@ == old(s)@.push(c),
{
    s.push(c);
}

/// Renders `n` as its decimal string, the form every instruction answer
/// takes.
pub fn to_decimal(n: u128) -> (s: String)
    ensures
        s@ == spec_decimal(n),
{
    let mut rev: Vec<char> = Vec::new();
    let mut m: u128 = n;
    rev.push(exec_digit_char(m % 10));
    proof {
        if n >= 10 {
            assert(spec_decimal(n) =~= spec_decimal(n / 10) + rev@.reverse());
        } else {
            assert(spec_decimal(n) =~= rev@.reverse());
        }
    }
    m = m / 10;
    while m > 0
        invariant
            rev@.len() > 0,
            m > 0 ==> spec_decimal(n) == spec_decimal(m) + rev@.reverse(),
            m == 0 ==> spec_decimal(n) == rev@.reverse(),
        decreases m,
    {
        let ghost rev0 = rev@;
        let ghost m0 = m;
        rev.push(exec_digit_char(m % 10));
        proof {
            assert(rev@.reverse() =~= seq![digit_char((m0 % 10) as int)] + rev0.reverse());
            if m0 >= 10 {
                assert(spec_decimal(m0) =~= spec_decimal(m0 / 10).push(
                    digit_char((m0 % 10) as int),
                ));
                assert(spec_decimal(m0 / 10) + rev@.reverse() =~= spec_decimal(m0)
                    + rev0.reverse());
            } else {
                assert(spec_decimal(m0) =~= seq![digit_char((m0 % 10) as int)]);
                assert(rev@.reverse() =~= spec_decimal(m0) + rev0.reverse());
            }
        }
        m = m / 10;
    }
    let mut s = String::new();
    let k = rev.len();
    for i in 0..k
        invariant
            k == rev@.len(),
            s@ == rev@.reverse().subrange(0, i as int),
    {
        push_char(&mut s, rev[k - 1 - i]);
        proof {
            assert(s@ =~= rev@.reverse().subrange(0, i as int + 1));
        }
    }
    proof {
        assert(rev@.reverse().subrange(0, k as int) =~= rev@.reverse());
    }
    s
}

} // verus!
