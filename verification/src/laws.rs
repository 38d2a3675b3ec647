//! Laws of the escrow ledger, stated and proved over the contracts of its
//! operations.

use vstd::prelude::*;

use crate::enums::InternalError;
use crate::escrow::{lemma_term_le_sum, lock_post, release_post, sum_locked};
use crate::objects::{Cart, LockedAmount};
use crate::transaction::{cart_total, place_order_outcome};
use crate::Contract;

verus! {

/// In every well-formed state, each live hold is covered by its payer's
/// recorded locked total.  (The total may exceed the sum of the holds —
/// re-locking an escrow identifier leaks the overwritten amount into it —
/// but it never falls below any single hold, so a release cannot
/// underflow.)
pub proof fn lemma_hold_covered(c: Contract, payer: Seq<char>, escrow: Seq<char>, l: LockedAmount)
    requires
        c.wf(),
        c.lock_of(payer, escrow) == Some(l),
    ensures
        l.amount <= c.locked_total_of(payer),
{
    let sub = c.locked_balances@[payer];
    sub.lemma_dom();
    sub.lemma_keys_distinct();
    assert(sub.key_seq().contains(escrow));
    let i = choose|i: int| 0 <= i < sub.key_seq().len() && sub.key_seq()[i] == escrow;
    lemma_term_le_sum(sub@, sub.key_seq(), i);
    assert(sum_locked(sub) <= c.balances@[payer].total_locked_balance);
}

/// Locking an amount and then releasing the same escrow identifier returns
/// exactly that amount to the payer's balance, leaves the recorded locked
/// total unchanged on net, and deletes the hold.
pub proof fn lemma_lock_release_roundtrip(
    c0: Contract,
    c1: Contract,
    c2: Contract,
    payer: Seq<char>,
    escrow: Seq<char>,
    receiver: String,
    a: u128,
    l: LockedAmount,
)
    requires
        lock_post(c0, c1, payer, escrow, receiver, a),
        release_post(c1, c2, payer, escrow, l),
    ensures
        l == (LockedAmount { receiver_id: receiver, amount: a }),
        c2.balance_of(payer) == c0.balance_of(payer) + a,
        c2.locked_total_of(payer) == c0.locked_total_of(payer),
        c2.lock_of(payer, escrow) is None,
{
}

/// Re-locking the same escrow identifier overwrites the prior hold without
/// crediting the original amount back to the payer's balance; the recorded
/// locked total keeps both amounts, so it can exceed the sum of the live
/// holds.
pub proof fn lemma_relock_overwrites(
    c0: Contract,
    c1: Contract,
    c2: Contract,
    payer: Seq<char>,
    escrow: Seq<char>,
    r1: String,
    a1: u128,
    r2: String,
    a2: u128,
)
    requires
        lock_post(c0, c1, payer, escrow, r1, a1),
        lock_post(c1, c2, payer, escrow, r2, a2),
    ensures
        c2.lock_of(payer, escrow) == Some(LockedAmount { receiver_id: r2, amount: a2 }),
        c2.balance_of(payer) == c0.balance_of(payer),
        c2.locked_total_of(payer) == c0.locked_total_of(payer) + a1 + a2,
{
}

/// Paying exactly the order total yields zero change; overpaying by `k`
/// yields exactly `k`.
pub proof fn lemma_place_order_change(
    pre: Contract,
    payer: Seq<char>,
    cart: Cart,
    date: u64,
    k: u128,
)
    requires
        cart_total(cart.items@) + k <= u128::MAX,
        place_order_outcome(pre, payer, (cart_total(cart.items@) + k) as u128, cart, date) is Ok,
    ensures
        place_order_outcome(pre, payer, (cart_total(cart.items@) + k) as u128, cart, date)
            == Ok::<u128, InternalError>(k),
{
}

} // verus!
