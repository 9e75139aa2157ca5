//! The account ledger: balances per account and the total supply.
//!
//! The ledger's invariant ties the two together: the supply counter always
//! equals the sum of all stored balances, and no balance is negative.

use vstd::prelude::*;

use crate::errors::Error;
use crate::table::{has_key, keys_unique, lemma_absent_value, lemma_value_at_index, value_of, Table};

verus! {

/// Every stored balance is non-negative.
pub open spec fn entries_nonneg(s: Seq<(u64, i128)>) -> bool {
    forall|i: int| 0 <= i < s.len() ==> s[i].1 >= 0
}

/// The sum of all stored balances.
pub open spec fn sum_balances(s: Seq<(u64, i128)>) -> int
    decreases s.len(),
{
    if s.len() == 0 {
        0
    } else {
        s[0].1 + sum_balances(s.drop_first())
    }
}

/// A sum of non-negative balances is non-negative.
pub proof fn lemma_sum_nonneg(s: Seq<(u64, i128)>)
    requires
        entries_nonneg(s),
    ensures
        sum_balances(s) >= 0,
    decreases s.len(),
{
    if s.len() > 0 {
        assert(entries_nonneg(s.drop_first())) by {
            assert(forall|i: int|
                0 <= i < s.drop_first().len() ==> s.drop_first()[i] == s[i + 1]);
        }
        lemma_sum_nonneg(s.drop_first());
    }
}

/// One balance never exceeds the sum of all balances.
pub proof fn lemma_balance_le_sum(s: Seq<(u64, i128)>, account: u64)
    requires
        entries_nonneg(s),
    ensures
        0 <= value_of(s, account, 0i128) <= sum_balances(s),
    decreases s.len(),
{
    if s.len() == 0 {
    } else {
        assert(entries_nonneg(s.drop_first())) by {
            assert(forall|i: int|
                0 <= i < s.drop_first().len() ==> s.drop_first()[i] == s[i + 1]);
        }
        lemma_sum_nonneg(s.drop_first());
        lemma_balance_le_sum(s.drop_first(), account);
    }
}

/// Two different accounts' balances never exceed the sum together.
pub proof fn lemma_two_balances_le_sum(s: Seq<(u64, i128)>, a: u64, b: u64)
    requires
        entries_nonneg(s),
        a != b,
    ensures
        value_of(s, a, 0i128) + value_of(s, b, 0i128) <= sum_balances(s),
    decreases s.len(),
{
    if s.len() == 0 {
    } else {
        assert(entries_nonneg(s.drop_first())) by {
            assert(forall|i: int|
                0 <= i < s.drop_first().len() ==> s.drop_first()[i] == s[i + 1]);
        }
        if s[0].0 == a {
            lemma_balance_le_sum(s.drop_first(), b);
        } else if s[0].0 == b {
            lemma_balance_le_sum(s.drop_first(), a);
        } else {
            lemma_two_balances_le_sum(s.drop_first(), a, b);
        }
    }
}

/// Rewriting the value at one index changes the sum by the difference.
pub proof fn lemma_sum_update(s: Seq<(u64, i128)>, i: int, v: i128)
    requires
        0 <= i < s.len(),
    ensures
        sum_balances(s.update(i, (s[i].0, v))) == sum_balances(s) - s[i].1 + v,
    decreases s.len(),
{
    let s2 = s.update(i, (s[i].0, v));
    if i == 0 {
        assert(s2.drop_first() =~= s.drop_first());
    } else {
        assert(s2[0] == s[0]);
        assert(s.drop_first()[i - 1] == s[i]);
        assert(s2.drop_first() =~= s.drop_first().update(i - 1, (s.drop_first()[i - 1].0, v)));
        lemma_sum_update(s.drop_first(), i - 1, v);
    }
}

/// Appending an entry adds its balance to the sum.
pub proof fn lemma_sum_push(s: Seq<(u64, i128)>, e: (u64, i128))
    ensures
        sum_balances(s.push(e)) == sum_balances(s) + e.1,
    decreases s.len(),
{
    let s2 = s.push(e);
    if s.len() == 0 {
        assert(s2.drop_first() =~= Seq::<(u64, i128)>::empty());
        assert(s2[0] == e);
        assert(sum_balances(Seq::<(u64, i128)>::empty()) == 0);
    } else {
        assert(s2[0] == s[0]);
        assert(s2.drop_first() =~= s.drop_first().push(e));
        lemma_sum_push(s.drop_first(), e);
    }
}

/// Storing a non-negative balance under a key moves the sum by the
/// difference with the balance read before, and keeps every balance
/// non-negative. The relation between the two sequences is the one
/// `Table::put` establishes.
proof fn lemma_put_sum(s: Seq<(u64, i128)>, s2: Seq<(u64, i128)>, key: u64, v: i128)
    requires
        keys_unique(s),
        entries_nonneg(s),
        v >= 0,
        (if has_key(s, key) {
            exists|i: int| 0 <= i < s.len() && s[i].0 == key && s2 == s.update(i, (key, v))
        } else {
            s2 == s.push((key, v))
        }),
    ensures
        sum_balances(s2) == sum_balances(s) - value_of(s, key, 0i128) + v,
        entries_nonneg(s2),
{
    if has_key(s, key) {
        let i = choose|i: int| 0 <= i < s.len() && s[i].0 == key && s2 == s.update(i, (key, v));
        lemma_value_at_index(s, i, 0i128);
        lemma_sum_update(s, i, v);
        assert(entries_nonneg(s2)) by {
            assert(forall|j: int| 0 <= j < s2.len() && j != i ==> s2[j] == s[j]);
        }
    } else {
        lemma_absent_value(s, key, 0i128);
        lemma_sum_push(s, (key, v));
        assert(entries_nonneg(s2)) by {
            assert(forall|j: int| 0 <= j < s.len() ==> s2[j] == s[j]);
            assert(s2[s.len() as int].1 == v);
        }
    }
}

/// The balance-per-account map together with the total-supply counter.
pub struct AccountLedger {
    pub accounts: Table<i128>,
    pub total_supply: i128,
}

impl AccountLedger {
    /// The balance of an account; an account never written holds zero.
    pub open spec fn bal(self, account: u64) -> int {
        value_of(self.accounts@, account, 0i128) as int
    }

    /// The total supply.
    pub open spec fn supply(self) -> int {
        self.total_supply as int
    }

    /// The conservation invariant: unique keys, no negative balance, and a
    /// supply counter equal to the sum of all balances.
    pub open spec fn wf(self) -> bool {
        &&& self.accounts.wf()
        &&& entries_nonneg(self.accounts@)
        &&& self.supply() == sum_balances(self.accounts@)
    }

    /// An empty ledger: no balances, zero supply.
    pub fn new() -> (r: Self)
        ensures
            r.wf(),
            r.supply() == 0,
            forall|a: u64| r.bal(a) == 0,
    {
        let r = AccountLedger { accounts: Table::new(), total_supply: 0 };
        proof {
            assert forall|a: u64| r.bal(a) == 0 by {
                lemma_absent_value(r.accounts@, a, 0i128);
            }
        }
        r
    }

    /// Reads an account's balance; never fails, missing accounts read zero.
    pub fn get_balance(&self, account: u64) -> (r: i128)
        requires
            self.wf(),
        ensures
            r as int == self.bal(account),
            r >= 0,
    {
        proof {
            lemma_balance_le_sum(self.accounts@, account);
        }
        match self.accounts.get_ref(account) {
            Some(v) => *v,
            None => {
                proof {
                    lemma_absent_value(self.accounts@, account, 0i128);
                }
                0
            },
        }
    }

    /// Credits an account: its balance and the total supply both grow by
    /// `amount`. Fails with `Overflow`, changing nothing, exactly when the
    /// new supply would not fit; no other bound is enforced.
    pub fn credit(&mut self, account: u64, amount: i128) -> (r: Result<(), Error>)
        requires
            old(self).wf(),
            amount > 0,
        ensures
            final(self).wf(),
            old(self).supply() + amount > i128::MAX ==> r == Err::<(), Error>(Error::Overflow)
                && *final(self) == *old(self),
            old(self).supply() + amount <= i128::MAX ==> {
                &&& r == Ok::<(), Error>(())
                &&& final(self).bal(account) == old(self).bal(account) + amount
                &&& final(self).supply() == old(self).supply() + amount
                &&& forall|a: u64| a != account ==> final(self).bal(a) == old(self).bal(a)
            },
    {
        if self.total_supply > i128::MAX - amount {
            return Err(Error::Overflow);
        }
        let ghost s = self.accounts@;
        let b = self.get_balance(account);
        proof {
            lemma_balance_le_sum(self.accounts@, account);
        }
        self.accounts.put(account, b + amount);
        proof {
            lemma_put_sum(s, self.accounts@, account, (b + amount) as i128);
        }
        self.total_supply = self.total_supply + amount;
        Ok(())
    }

    /// Debits an account: its balance and the total supply both shrink by
    /// `amount`. Fails with `InsufficientBalance`, changing nothing, exactly
    /// when the account holds less than `amount`.
    pub fn debit(&mut self, account: u64, amount: i128) -> (r: Result<(), Error>)
        requires
            old(self).wf(),
            amount > 0,
        ensures
            final(self).wf(),
            old(self).bal(account) < amount ==> r == Err::<(), Error>(Error::InsufficientBalance)
                && *final(self) == *old(self),
            old(self).bal(account) >= amount ==> {
                &&& r == Ok::<(), Error>(())
                &&& final(self).bal(account) == old(self).bal(account) - amount
                &&& final(self).supply() == old(self).supply() - amount
                &&& forall|a: u64| a != account ==> final(self).bal(a) == old(self).bal(a)
            },
    {
        let b = self.get_balance(account);
        if b < amount {
            return Err(Error::InsufficientBalance);
        }
        let ghost s = self.accounts@;
        proof {
            lemma_balance_le_sum(self.accounts@, account);
        }
        self.accounts.put(account, b - amount);
        proof {
            lemma_put_sum(s, self.accounts@, account, (b - amount) as i128);
        }
        self.total_supply = self.total_supply - amount;
        Ok(())
    }

    /// Moves `amount` from one account to another without touching the
    /// total supply; all-or-nothing. Fails with `SelfTransfer` when the two
    /// accounts are the same, and with `InsufficientBalance` when the source
    /// holds less than `amount`; either failure changes nothing.
    pub fn move_balance(&mut self, from: u64, to: u64, amount: i128) -> (r: Result<(), Error>)
        requires
            old(self).wf(),
            amount > 0,
        ensures
            final(self).wf(),
            from == to ==> r == Err::<(), Error>(Error::SelfTransfer) && *final(self) == *old(self),
            from != to && old(self).bal(from) < amount ==> r == Err::<(), Error>(
                Error::InsufficientBalance,
            ) && *final(self) == *old(self),
            from != to && old(self).bal(from) >= amount ==> {
                &&& r == Ok::<(), Error>(())
                &&& final(self).bal(from) == old(self).bal(from) - amount
                &&& final(self).bal(to) == old(self).bal(to) + amount
                &&& final(self).supply() == old(self).supply()
                &&& forall|a: u64| a != from && a != to ==> final(self).bal(a) == old(self).bal(a)
            },
    {
        if from == to {
            return Err(Error::SelfTransfer);
        }
        let bf = self.get_balance(from);
        if bf < amount {
            return Err(Error::InsufficientBalance);
        }
        proof {
            lemma_two_balances_le_sum(self.accounts@, from, to);
        }
        let ghost s0 = self.accounts@;
        self.accounts.put(from, bf - amount);
        proof {
            lemma_put_sum(s0, self.accounts@, from, (bf - amount) as i128);
        }
        let bt = self.get_balance_unsummed(to);
        let ghost s1 = self.accounts@;
        self.accounts.put(to, bt + amount);
        proof {
            lemma_put_sum(s1, self.accounts@, to, (bt + amount) as i128);
        }
        Ok(())
    }

    /// Reads a balance without relying on the supply counter; the ledger may
    /// be mid-operation, so only key uniqueness and non-negativity hold.
    fn get_balance_unsummed(&self, account: u64) -> (r: i128)
        requires
            self.accounts.wf(),
            entries_nonneg(self.accounts@),
        ensures
            r as int == self.bal(account),
            r >= 0,
    {
        proof {
            lemma_balance_le_sum(self.accounts@, account);
        }
        match self.accounts.get_ref(account) {
            Some(v) => *v,
            None => {
                proof {
                    lemma_absent_value(self.accounts@, account, 0i128);
                }
                0
            },
        }
    }
}

} // verus!
