//! The escrow ledger: locking funds against an (account, escrow) pair and
//! releasing a hold back to the payer's available balance.

use vstd::prelude::*;

use crate::enums::InternalError;
use crate::objects::{Account, LockedAmount};
use crate::store::StrMap;
use crate::{same_catalog, same_directory, same_proposals, Contract};

verus! {

/// The contribution of key `k` to the sum of the holds in `m`.
pub open spec fn lock_term(m: Map<Seq<char>, LockedAmount>, k: Seq<char>) -> int {
    if m.contains_key(k) {
        m[k].amount as int
    } else {
        0
    }
}

/// Sum of the holds of `m` over the listed keys.
pub open spec fn sum_keys(m: Map<Seq<char>, LockedAmount>, keys: Seq<Seq<char>>) -> int
    decreases keys.len(),
{
    if keys.len() == 0 {
        0
    } else {
        sum_keys(m, keys.drop_last()) + lock_term(m, keys.last())
    }
}

/// Sum of all live holds of a lock store.
pub open spec fn sum_locked(s: StrMap<LockedAmount>) -> int {
    sum_keys(s@, s.key_seq())
}

/// The listed keys are pairwise distinct.
pub open spec fn distinct_seq(keys: Seq<Seq<char>>) -> bool {
    forall|i: int, j: int| 0 <= i < j < keys.len() ==> keys[i] != keys[j]
}

pub proof fn lemma_sum_nonneg(m: Map<Seq<char>, LockedAmount>, keys: Seq<Seq<char>>)
    ensures
        sum_keys(m, keys) >= 0,
    decreases keys.len(),
{
    if keys.len() > 0 {
        lemma_sum_nonneg(m, keys.drop_last());
    }
}

/// Removing the key at position `i` removes exactly its term from the sum.
pub proof fn lemma_sum_remove_idx(m: Map<Seq<char>, LockedAmount>, keys: Seq<Seq<char>>, i: int)
    requires
        0 <= i < keys.len(),
    ensures
        sum_keys(m, keys.remove(i)) == sum_keys(m, keys) - lock_term(m, keys[i]),
    decreases keys.len(),
{
    if i == keys.len() - 1 {
        assert(keys.remove(i) =~= keys.drop_last());
    } else {
        assert(keys.remove(i).last() == keys.last());
        assert(keys.remove(i).drop_last() =~= keys.drop_last().remove(i));
        lemma_sum_remove_idx(m, keys.drop_last(), i);
    }
}

/// Two stores that agree on every listed key have the same sum.
pub proof fn lemma_sum_agree(
    m1: Map<Seq<char>, LockedAmount>,
    m2: Map<Seq<char>, LockedAmount>,
    keys: Seq<Seq<char>>,
)
    requires
        forall|k: Seq<char>| keys.contains(k) ==> lock_term(m1, k) == lock_term(m2, k),
    ensures
        sum_keys(m1, keys) == sum_keys(m2, keys),
    decreases keys.len(),
{
    if keys.len() > 0 {
        assert(keys.contains(keys.last()));
        assert(forall|k: Seq<char>| keys.drop_last().contains(k) ==> keys.contains(k)) by {
            assert(forall|j: int|
                0 <= j < keys.drop_last().len() ==> keys.drop_last()[j] == keys[j]);
        }
        lemma_sum_agree(m1, m2, keys.drop_last());
    }
}

/// Storing `v` under a key not yet listed grows the sum by its amount.
pub proof fn lemma_sum_insert_new(
    m: Map<Seq<char>, LockedAmount>,
    keys: Seq<Seq<char>>,
    k: Seq<char>,
    v: LockedAmount,
)
    requires
        !keys.contains(k),
    ensures
        sum_keys(m.insert(k, v), keys.push(k)) == sum_keys(m, keys) + v.amount,
{
    let m1 = m.insert(k, v);
    assert(keys.push(k).drop_last() =~= keys);
    assert(keys.push(k).last() == k);
    assert(lock_term(m1, k) == v.amount as int);
    lemma_sum_agree(m1, m, keys);
}

/// Overwriting the hold at listed position `i` shifts the sum by the
/// difference of the amounts.
pub proof fn lemma_sum_insert_existing(
    m: Map<Seq<char>, LockedAmount>,
    keys: Seq<Seq<char>>,
    i: int,
    v: LockedAmount,
)
    requires
        distinct_seq(keys),
        0 <= i < keys.len(),
    ensures
        sum_keys(m.insert(keys[i], v), keys) == sum_keys(m, keys) - lock_term(m, keys[i])
            + v.amount,
{
    let k = keys[i];
    let m1 = m.insert(k, v);
    lemma_sum_remove_idx(m1, keys, i);
    lemma_sum_remove_idx(m, keys, i);
    assert(forall|q: Seq<char>|
        keys.remove(i).contains(q) ==> lock_term(m1, q) == lock_term(m, q)) by {
        assert forall|q: Seq<char>| keys.remove(i).contains(q) implies lock_term(m1, q)
            == lock_term(m, q) by {
            let j = choose|j: int|
                0 <= j < keys.remove(i).len() && keys.remove(i)[j] == q;
            let jj: int = if j < i {
                j
            } else {
                j + 1
            };
            assert(keys[jj] == q);
            assert(q != k);
        }
    }
    lemma_sum_agree(m1, m, keys.remove(i));
    assert(lock_term(m1, k) == v.amount as int);
}

/// Dropping the hold at listed position `i` shrinks the sum by its amount.
pub proof fn lemma_sum_remove_key(
    m: Map<Seq<char>, LockedAmount>,
    keys: Seq<Seq<char>>,
    i: int,
)
    requires
        distinct_seq(keys),
        0 <= i < keys.len(),
    ensures
        sum_keys(m.remove(keys[i]), keys.remove(i)) == sum_keys(m, keys) - lock_term(
            m,
            keys[i],
        ),
{
    let k = keys[i];
    let m1 = m.remove(k);
    lemma_sum_remove_idx(m, keys, i);
    assert(forall|q: Seq<char>|
        keys.remove(i).contains(q) ==> lock_term(m1, q) == lock_term(m, q)) by {
        assert forall|q: Seq<char>| keys.remove(i).contains(q) implies lock_term(m1, q)
            == lock_term(m, q) by {
            let j = choose|j: int|
                0 <= j < keys.remove(i).len() && keys.remove(i)[j] == q;
            let jj: int = if j < i {
                j
            } else {
                j + 1
            };
            assert(keys[jj] == q);
            assert(q != k);
        }
    }
    lemma_sum_agree(m1, m, keys.remove(i));
}

/// A single listed hold never exceeds the sum.
pub proof fn lemma_term_le_sum(m: Map<Seq<char>, LockedAmount>, keys: Seq<Seq<char>>, i: int)
    requires
        0 <= i < keys.len(),
    ensures
        lock_term(m, keys[i]) <= sum_keys(m, keys),
{
    lemma_sum_remove_idx(m, keys, i);
    lemma_sum_nonneg(m, keys.remove(i));
}

/// What a successful lock does: the hold is stored, the payer's recorded
/// locked total grows by the amount, and nothing else moves.
pub open spec fn lock_post(
    pre: Contract,
    post: Contract,
    payer: Seq<char>,
    escrow: Seq<char>,
    receiver: String,
    amount: u128,
) -> bool {
    &&& post.lock_of(payer, escrow) == Some(LockedAmount { receiver_id: receiver, amount })
    &&& post.has_lock_store(payer)
    &&& post.has_account(payer)
    &&& post.balance_of(payer) == pre.balance_of(payer)
    &&& post.locked_total_of(payer) == pre.locked_total_of(payer) + amount
    &&& (forall|p: Seq<char>, e: Seq<char>|
        !(p == payer && e == escrow) ==> post.lock_of(p, e) == pre.lock_of(p, e))
    &&& (forall|p: Seq<char>|
        p != payer ==> post.has_lock_store(p) == pre.has_lock_store(p) && post.has_account(p)
            == pre.has_account(p) && post.balance_of(p) == pre.balance_of(p)
            && post.locked_total_of(p) == pre.locked_total_of(p))
    &&& same_catalog(&post, &pre)
    &&& same_directory(&post, &pre)
    &&& same_proposals(&post, &pre)
    &&& post.token_precision == pre.token_precision
}

/// What a successful release does: the hold `l` is deleted, its amount
/// moves into the payer's balance, the recorded locked total shrinks by the
/// same amount, and nothing else moves.
pub open spec fn release_post(
    pre: Contract,
    post: Contract,
    payer: Seq<char>,
    escrow: Seq<char>,
    l: LockedAmount,
) -> bool {
    &&& pre.lock_of(payer, escrow) == Some(l)
    &&& post.lock_of(payer, escrow) is None
    &&& post.has_lock_store(payer)
    &&& post.has_account(payer)
    &&& post.balance_of(payer) == pre.balance_of(payer) + l.amount
    &&& post.locked_total_of(payer) == pre.locked_total_of(payer) - l.amount
    &&& (forall|p: Seq<char>, e: Seq<char>|
        !(p == payer && e == escrow) ==> post.lock_of(p, e) == pre.lock_of(p, e))
    &&& (forall|p: Seq<char>|
        p != payer ==> post.has_lock_store(p) == pre.has_lock_store(p) && post.has_account(p)
            == pre.has_account(p) && post.balance_of(p) == pre.balance_of(p)
            && post.locked_total_of(p) == pre.locked_total_of(p))
    &&& same_catalog(&post, &pre)
    &&& same_directory(&post, &pre)
    &&& same_proposals(&post, &pre)
    &&& post.token_precision == pre.token_precision
}

impl Contract {
    /// Creates or overwrites the hold at `(account_id, escrow_id)` and adds
    /// `lock_amount` to the payer's recorded locked total.  Re-locking an
    /// escrow identifier replaces the prior hold without crediting it back;
    /// the coordinator avoids this by locking only freshly created orders.
    pub fn lock_balance(
        &mut self,
        account_id: &String,
        escrow_id: &String,
        receiver_id: String,
        lock_amount: u128,
    ) -> (r: Result<(), InternalError>)
        requires
            old(self).wf(),
            old(self).locked_total_of(account_id@) + lock_amount <= u128::MAX,
        ensures
            final(self).wf(),
            lock_amount == 0 ==> r == Err::<(), InternalError>(InternalError::InvalidAmount)
                && *final(self) == *old(self),
            lock_amount > 0 ==> r == Ok::<(), InternalError>(()) && lock_post(
                *old(self),
                *final(self),
                account_id@,
                escrow_id@,
                receiver_id,
                lock_amount,
            ),
    {
        if lock_amount == 0 {
            return Err(InternalError::InvalidAmount);
        }
        let mut my_locks: StrMap<LockedAmount> = match self.locked_balances.remove(account_id) {
            Some(m) => m,
            None => StrMap::new(),
        };
        let ghost locks0 = my_locks;
        proof {
            locks0.lemma_keys_distinct();
            locks0.lemma_dom();
            if locks0@.contains_key(escrow_id@) {
                assert(locks0.key_seq().contains(escrow_id@));
                let i = choose|i: int|
                    0 <= i < locks0.key_seq().len() && locks0.key_seq()[i] == escrow_id@;
                assert(locks0.key_seq()[i] == escrow_id@);
                lemma_sum_insert_existing(
                    locks0@,
                    locks0.key_seq(),
                    i,
                    LockedAmount { receiver_id, amount: lock_amount },
                );
                lemma_term_le_sum(locks0@, locks0.key_seq(), i);
            } else {
                lemma_sum_insert_new(
                    locks0@,
                    locks0.key_seq(),
                    escrow_id@,
                    LockedAmount { receiver_id, amount: lock_amount },
                );
            }
            lemma_sum_nonneg(locks0@, locks0.key_seq());
        }
        my_locks.insert(escrow_id.clone(), LockedAmount { receiver_id, amount: lock_amount });
        self.locked_balances.insert(account_id.clone(), my_locks);
        let mut acct: Account = match self.balances.remove(account_id) {
            Some(a) => a,
            None => Account {
                balance: 0,
                total_locked_balance: 0,
                account_id: account_id.clone(),
            },
        };
        acct.total_locked_balance = acct.total_locked_balance + lock_amount;
        self.balances.insert(account_id.clone(), acct);
        proof {
            assert(self.locked_balances@ =~= old(self).locked_balances@.insert(
                account_id@,
                my_locks,
            ));
            assert(self.balances@ =~= old(self).balances@.insert(account_id@, acct));
            assert(sum_locked(my_locks) <= acct.total_locked_balance);
        }
        Ok(())
    }

    /// Read-only view of the hold at `(account_id, escrow_id)`; a
    /// zero-amount placeholder addressed to `receiver_id` when none exists.
    pub fn get_locked_balance(
        &self,
        account_id: String,
        escrow_id: String,
        receiver_id: String,
    ) -> (r: LockedAmount)
        requires
            self.wf(),
        ensures
            match self.lock_of(account_id@, escrow_id@) {
                Some(l) => r == l,
                None => r == (LockedAmount { receiver_id, amount: 0 }),
            },
    {
        match self.locked_balances.get(&account_id) {
            Some(locks) => match locks.get(&escrow_id) {
                Some(l) => l.clone(),
                None => LockedAmount { receiver_id, amount: 0 },
            },
            None => LockedAmount { receiver_id, amount: 0 },
        }
    }

    /// Releases the hold at `(account_id, escrow_id)` back into the payer's
    /// balance and returns the receiver the hold was addressed to.  Fails
    /// with `NotFound` when the payer owns no lock collection and with
    /// `InvalidOrder` when the collection has no entry for `escrow_id`.
    pub fn refund(&mut self, account_id: String, escrow_id: String) -> (r: Result<
        String,
        InternalError,
    >)
        requires
            old(self).wf(),
            match old(self).lock_of(account_id@, escrow_id@) {
                Some(l) => old(self).balance_of(account_id@) + l.amount <= u128::MAX,
                None => true,
            },
        ensures
            final(self).wf(),
            !old(self).has_lock_store(account_id@) ==> r == Err::<String, InternalError>(
                InternalError::NotFound,
            ) && *final(self) == *old(self),
            old(self).has_lock_store(account_id@) && old(self).lock_of(account_id@, escrow_id@)
                is None ==> r == Err::<String, InternalError>(InternalError::InvalidOrder)
                && *final(self) == *old(self),
            match old(self).lock_of(account_id@, escrow_id@) {
                Some(l) => r == Ok::<String, InternalError>(l.receiver_id) && release_post(
                    *old(self),
                    *final(self),
                    account_id@,
                    escrow_id@,
                    l,
                ),
                None => r is Err,
            },
    {
        let has_entry: bool = match self.locked_balances.get(&account_id) {
            None => {
                return Err(InternalError::NotFound);
            },
            Some(locks) => locks.has(&escrow_id),
        };
        if !has_entry {
            return Err(InternalError::InvalidOrder);
        }
        let mut my_locks = self.locked_balances.remove(&account_id).unwrap();
        let ghost locks0 = my_locks;
        proof {
            locks0.lemma_keys_distinct();
            locks0.lemma_dom();
            assert(locks0@.contains_key(escrow_id@));
            assert(locks0.key_seq().contains(escrow_id@));
            let i = choose|i: int|
                0 <= i < locks0.key_seq().len() && locks0.key_seq()[i] == escrow_id@;
            assert(locks0.key_seq()[i] == escrow_id@);
            lemma_sum_remove_key(locks0@, locks0.key_seq(), i);
            lemma_term_le_sum(locks0@, locks0.key_seq(), i);
            lemma_sum_nonneg(locks0@, locks0.key_seq());
        }
        let lock = my_locks.remove(&escrow_id).unwrap();
        let refund_amount = lock.amount;
        let receiver_id = lock.receiver_id;
        let mut acct: Account = self.balances.remove(&account_id).unwrap();
        acct.balance = acct.balance + refund_amount;
        acct.total_locked_balance = acct.total_locked_balance - refund_amount;
        self.balances.insert(account_id.clone(), acct);
        self.locked_balances.insert(account_id, my_locks);
        proof {
            assert(self.locked_balances@ =~= old(self).locked_balances@.insert(
                account_id@,
                my_locks,
            ));
            assert(self.balances@ =~= old(self).balances@.insert(account_id@, acct));
        }
        Ok(receiver_id)
    }

    /// Read-only ledger record of `account_id`; zeroed when none exists.
    pub fn get_account(&self, account_id: &String) -> (r: Account)
        requires
            self.wf(),
        ensures
            r.balance == self.balance_of(account_id@),
            r.total_locked_balance == self.locked_total_of(account_id@),
    {
        match self.balances.get(account_id) {
            Some(a) => a.clone(),
            None => Account { balance: 0, total_locked_balance: 0, account_id: account_id.clone() },
        }
    }
}

} // verus!
