//! The ledger service: the operations callers interact with.
//!
//! One `LoyaltyProgram` instance owns the whole ledger state. The host is
//! expected to authenticate callers and to supply timestamps: every
//! operation receives the verified caller identity and, where it writes a
//! record, the current time.

use vstd::prelude::*;
use vstd::string::StringExecFns;

use crate::errors::Error;
use crate::history::{push_capped, Transaction, TransactionKind, TransactionLog, HISTORY_CAPACITY};
use crate::ledger::{sum_balances, AccountLedger};
use crate::policy::{compute_points, compute_points_spec, RewardRates};
use crate::stats::{zero_stats, StatsTracker, UserStats};

verus! {

/// The points ledger: balances, supply, reward configuration, bounded
/// per-account history and per-account statistics, behind an
/// uninitialized-to-initialized life cycle guarded by a single admin.
pub struct LoyaltyProgram {
    pub initialized: bool,
    pub admin: u64,
    pub name: String,
    pub symbol: String,
    pub rates: RewardRates,
    pub ledger: AccountLedger,
    pub log: TransactionLog,
    pub stats: StatsTracker,
}

impl LoyaltyProgram {
    /// The balance of an account.
    pub open spec fn spec_balance(self, account: u64) -> int {
        self.ledger.bal(account)
    }

    /// The total supply.
    pub open spec fn spec_supply(self) -> int {
        self.ledger.supply()
    }

    /// The transaction history of an account, oldest first.
    pub open spec fn spec_history(self, account: u64) -> Seq<Transaction> {
        self.log.hist(account)
    }

    /// The lifetime statistics of an account.
    pub open spec fn spec_stats(self, account: u64) -> UserStats {
        self.stats.stats_of(account)
    }

    /// The service invariant: the components' invariants, and a valid
    /// reward configuration once initialized.
    pub open spec fn wf(self) -> bool {
        &&& self.ledger.wf()
        &&& self.log.wf()
        &&& self.stats.wf()
        &&& (self.initialized ==> self.rates.wf())
    }

    /// The token configuration (everything but balances, history and
    /// statistics) is the same in both states.
    pub open spec fn same_config(pre: Self, post: Self) -> bool {
        &&& post.initialized == pre.initialized
        &&& post.admin == pre.admin
        &&& post.name@ == pre.name@
        &&& post.symbol@ == pre.symbol@
        &&& post.rates == pre.rates
    }

    /// A fresh, uninitialized ledger: no admin, zero supply, all accounts
    /// at their defaults.
    pub fn new() -> (r: Self)
        ensures
            r.wf(),
            !r.initialized,
            r.spec_supply() == 0,
            forall|a: u64| r.spec_balance(a) == 0,
            forall|a: u64| r.spec_history(a) == Seq::<Transaction>::empty(),
            forall|a: u64| r.spec_stats(a) == zero_stats(),
    {
        LoyaltyProgram {
            initialized: false,
            admin: 0,
            name: String::new(),
            symbol: String::new(),
            rates: RewardRates { earn_rate: 1, min_purchase: 0 },
            ledger: AccountLedger::new(),
            log: TransactionLog::new(),
            stats: StatsTracker::new(),
        }
    }

    /// Sets the admin, the token name and symbol, and the reward rates,
    /// exactly once; the supply starts at zero. Fails with
    /// `AlreadyInitialized`, changing nothing, when called a second time.
    pub fn initialize(
        &mut self,
        admin: u64,
        name: String,
        symbol: String,
        earn_rate: i128,
        min_purchase: i128,
    ) -> (r: Result<(), Error>)
        requires
            old(self).wf(),
            earn_rate >= 1,
            min_purchase >= 0,
        ensures
            final(self).wf(),
            old(self).initialized ==> r == Err::<(), Error>(Error::AlreadyInitialized)
                && *final(self) == *old(self),
            !old(self).initialized ==> {
                &&& r == Ok::<(), Error>(())
                &&& final(self).initialized
                &&& final(self).admin == admin
                &&& final(self).name@ == name@
                &&& final(self).symbol@ == symbol@
                &&& final(self).rates == (RewardRates { earn_rate, min_purchase })
                &&& final(self).spec_supply() == 0
                &&& forall|a: u64| final(self).spec_balance(a) == 0
                &&& forall|a: u64| final(self).spec_history(a) == Seq::<Transaction>::empty()
                &&& forall|a: u64| final(self).spec_stats(a) == zero_stats()
            },
    {
        if self.initialized {
            return Err(Error::AlreadyInitialized);
        }
        self.initialized = true;
        self.admin = admin;
        self.name = name;
        self.symbol = symbol;
        self.rates = RewardRates { earn_rate, min_purchase };
        self.ledger = AccountLedger::new();
        self.log = TransactionLog::new();
        self.stats = StatsTracker::new();
        Ok(())
    }

    /// What `earn_points` returns for each input and starting state.
    pub open spec fn earn_outcome(pre: Self, user: u64, purchase_amount: i128) -> Result<
        i128,
        Error,
    > {
        if !pre.initialized {
            Err(Error::NotInitialized)
        } else {
            match compute_points_spec(purchase_amount, pre.rates) {
                Err(e) => Err(e),
                Ok(p) => {
                    if pre.spec_supply() + p > i128::MAX || pre.spec_stats(user).total_earned + p
                        > i128::MAX || pre.spec_stats(user).transaction_count + 1 > u32::MAX {
                        Err(Error::Overflow)
                    } else {
                        Ok(p)
                    }
                },
            }
        }
    }

    /// Credits a user with the points a purchase earns: the reward policy
    /// computes the points, the user's balance and the supply grow by them,
    /// the statistics record them as earned, and an `Earn` record joins the
    /// history. All-or-nothing: any failure leaves the state untouched.
    pub fn earn_points(&mut self, user: u64, purchase_amount: i128, timestamp: u64) -> (r: Result<
        i128,
        Error,
    >)
        requires
            old(self).wf(),
        ensures
            final(self).wf(),
            r == Self::earn_outcome(*old(self), user, purchase_amount),
            r matches Err(_) ==> *final(self) == *old(self),
            r matches Ok(p) ==> {
                &&& 0 < p <= purchase_amount
                &&& final(self).spec_balance(user) == old(self).spec_balance(user) + p
                &&& (forall|a: u64|
                    a != user ==> final(self).spec_balance(a) == old(self).spec_balance(a))
                &&& final(self).spec_supply() == old(self).spec_supply() + p
                &&& final(self).spec_history(user) == push_capped(
                    old(self).spec_history(user),
                    (Transaction { amount: p, kind: TransactionKind::Earn, timestamp }),
                )
                &&& (forall|a: u64|
                    a != user ==> final(self).spec_history(a) == old(self).spec_history(a))
                &&& final(self).spec_stats(user) == (UserStats {
                    total_earned: (old(self).spec_stats(user).total_earned + p) as i128,
                    total_redeemed: old(self).spec_stats(user).total_redeemed,
                    transaction_count: (old(self).spec_stats(user).transaction_count + 1) as u32,
                    last_activity: timestamp,
                })
                &&& (forall|a: u64|
                    a != user ==> final(self).spec_stats(a) == old(self).spec_stats(a))
                &&& Self::same_config(*old(self), *final(self))
            },
    {
        if !self.initialized {
            return Err(Error::NotInitialized);
        }
        let points = match compute_points(purchase_amount, &self.rates) {
            Ok(p) => p,
            Err(e) => {
                return Err(e);
            },
        };
        let st = self.stats.get_stats(user);
        if st.total_earned > i128::MAX - points {
            return Err(Error::Overflow);
        }
        if st.transaction_count == u32::MAX {
            return Err(Error::Overflow);
        }
        match self.ledger.credit(user, points) {
            Ok(()) => {},
            Err(e) => {
                return Err(e);
            },
        }
        self.stats.record(user, points, 0, timestamp);
        self.log.append(user, points, TransactionKind::Earn, timestamp);
        Ok(points)
    }

    /// What `redeem_points` returns for each input and starting state.
    pub open spec fn redeem_outcome(pre: Self, user: u64, points_to_redeem: i128) -> Result<
        (),
        Error,
    > {
        if !pre.initialized {
            Err(Error::NotInitialized)
        } else if points_to_redeem <= 0 {
            Err(Error::InvalidAmount)
        } else if pre.spec_balance(user) < points_to_redeem {
            Err(Error::InsufficientBalance)
        } else if pre.spec_stats(user).total_redeemed + points_to_redeem > i128::MAX || pre
            .spec_stats(user).transaction_count + 1 > u32::MAX {
            Err(Error::Overflow)
        } else {
            Ok(())
        }
    }

    /// Debits redeemed points from a user: balance and supply shrink by the
    /// points, the statistics record them as redeemed, and a `Redeem` record
    /// with a negative amount joins the history. All-or-nothing.
    pub fn redeem_points(&mut self, user: u64, points_to_redeem: i128, timestamp: u64) -> (r:
        Result<(), Error>)
        requires
            old(self).wf(),
        ensures
            final(self).wf(),
            r == Self::redeem_outcome(*old(self), user, points_to_redeem),
            r matches Err(_) ==> *final(self) == *old(self),
            r matches Ok(_) ==> {
                &&& final(self).spec_balance(user) == old(self).spec_balance(user)
                    - points_to_redeem
                &&& (forall|a: u64|
                    a != user ==> final(self).spec_balance(a) == old(self).spec_balance(a))
                &&& final(self).spec_supply() == old(self).spec_supply() - points_to_redeem
                &&& final(self).spec_history(user) == push_capped(
                    old(self).spec_history(user),
                    (Transaction {
                        amount: (-points_to_redeem) as i128,
                        kind: TransactionKind::Redeem,
                        timestamp,
                    }),
                )
                &&& (forall|a: u64|
                    a != user ==> final(self).spec_history(a) == old(self).spec_history(a))
                &&& final(self).spec_stats(user) == (UserStats {
                    total_earned: old(self).spec_stats(user).total_earned,
                    total_redeemed: (old(self).spec_stats(user).total_redeemed
                        + points_to_redeem) as i128,
                    transaction_count: (old(self).spec_stats(user).transaction_count + 1) as u32,
                    last_activity: timestamp,
                })
                &&& (forall|a: u64|
                    a != user ==> final(self).spec_stats(a) == old(self).spec_stats(a))
                &&& Self::same_config(*old(self), *final(self))
            },
    {
        if !self.initialized {
            return Err(Error::NotInitialized);
        }
        if points_to_redeem <= 0 {
            return Err(Error::InvalidAmount);
        }
        let b = self.ledger.get_balance(user);
        if b < points_to_redeem {
            return Err(Error::InsufficientBalance);
        }
        let st = self.stats.get_stats(user);
        if st.total_redeemed > i128::MAX - points_to_redeem {
            return Err(Error::Overflow);
        }
        if st.transaction_count == u32::MAX {
            return Err(Error::Overflow);
        }
        match self.ledger.debit(user, points_to_redeem) {
            Ok(()) => {},
            Err(e) => {
                return Err(e);
            },
        }
        self.stats.record(user, 0, points_to_redeem, timestamp);
        self.log.append(user, -points_to_redeem, TransactionKind::Redeem, timestamp);
        Ok(())
    }

    /// What `transfer` returns for each input and starting state.
    pub open spec fn transfer_outcome(pre: Self, from: u64, to: u64, amount: i128) -> Result<
        (),
        Error,
    > {
        if !pre.initialized {
            Err(Error::NotInitialized)
        } else if amount <= 0 {
            Err(Error::InvalidAmount)
        } else if from == to {
            Err(Error::SelfTransfer)
        } else if pre.spec_balance(from) < amount {
            Err(Error::InsufficientBalance)
        } else {
            Ok(())
        }
    }

    /// Moves points between two accounts: the source's balance shrinks and
    /// the destination's grows by the amount, the supply stays put, and a
    /// `TransferOut` / `TransferIn` record joins each history. Statistics
    /// are deliberately not touched. All-or-nothing.
    pub fn transfer(&mut self, from: u64, to: u64, amount: i128, timestamp: u64) -> (r: Result<
        (),
        Error,
    >)
        requires
            old(self).wf(),
        ensures
            final(self).wf(),
            r == Self::transfer_outcome(*old(self), from, to, amount),
            r matches Err(_) ==> *final(self) == *old(self),
            r matches Ok(_) ==> {
                &&& final(self).spec_balance(from) == old(self).spec_balance(from) - amount
                &&& final(self).spec_balance(to) == old(self).spec_balance(to) + amount
                &&& (forall|a: u64|
                    a != from && a != to ==> final(self).spec_balance(a) == old(self).spec_balance(
                        a,
                    ))
                &&& final(self).spec_supply() == old(self).spec_supply()
                &&& final(self).spec_history(from) == push_capped(
                    old(self).spec_history(from),
                    (Transaction {
                        amount: (-amount) as i128,
                        kind: TransactionKind::TransferOut,
                        timestamp,
                    }),
                )
                &&& final(self).spec_history(to) == push_capped(
                    old(self).spec_history(to),
                    (Transaction { amount, kind: TransactionKind::TransferIn, timestamp }),
                )
                &&& (forall|a: u64|
                    a != from && a != to ==> final(self).spec_history(a) == old(self).spec_history(
                        a,
                    ))
                &&& (forall|a: u64| final(self).spec_stats(a) == old(self).spec_stats(a))
                &&& Self::same_config(*old(self), *final(self))
            },
    {
        if !self.initialized {
            return Err(Error::NotInitialized);
        }
        if amount <= 0 {
            return Err(Error::InvalidAmount);
        }
        match self.ledger.move_balance(from, to, amount) {
            Ok(()) => {},
            Err(e) => {
                return Err(e);
            },
        }
        self.log.append(from, -amount, TransactionKind::TransferOut, timestamp);
        self.log.append(to, amount, TransactionKind::TransferIn, timestamp);
        Ok(())
    }

    /// What `mint` returns for each input and starting state.
    pub open spec fn mint_outcome(pre: Self, caller: u64, amount: i128) -> Result<(), Error> {
        if !pre.initialized {
            Err(Error::NotInitialized)
        } else if caller != pre.admin {
            Err(Error::Unauthorized)
        } else if amount <= 0 {
            Err(Error::InvalidAmount)
        } else if pre.spec_supply() + amount > i128::MAX {
            Err(Error::Overflow)
        } else {
            Ok(())
        }
    }

    /// Mints points into an account, admin only: balance and supply grow by
    /// the amount and a `Mint` record joins the history. Statistics are
    /// deliberately not touched. All-or-nothing.
    pub fn mint(&mut self, caller: u64, to: u64, amount: i128, timestamp: u64) -> (r: Result<
        (),
        Error,
    >)
        requires
            old(self).wf(),
        ensures
            final(self).wf(),
            r == Self::mint_outcome(*old(self), caller, amount),
            r matches Err(_) ==> *final(self) == *old(self),
            r matches Ok(_) ==> {
                &&& final(self).spec_balance(to) == old(self).spec_balance(to) + amount
                &&& (forall|a: u64|
                    a != to ==> final(self).spec_balance(a) == old(self).spec_balance(a))
                &&& final(self).spec_supply() == old(self).spec_supply() + amount
                &&& final(self).spec_history(to) == push_capped(
                    old(self).spec_history(to),
                    (Transaction { amount, kind: TransactionKind::Mint, timestamp }),
                )
                &&& (forall|a: u64|
                    a != to ==> final(self).spec_history(a) == old(self).spec_history(a))
                &&& (forall|a: u64| final(self).spec_stats(a) == old(self).spec_stats(a))
                &&& Self::same_config(*old(self), *final(self))
            },
    {
        if !self.initialized {
            return Err(Error::NotInitialized);
        }
        if caller != self.admin {
            return Err(Error::Unauthorized);
        }
        if amount <= 0 {
            return Err(Error::InvalidAmount);
        }
        match self.ledger.credit(to, amount) {
            Ok(()) => {},
            Err(e) => {
                return Err(e);
            },
        }
        self.log.append(to, amount, TransactionKind::Mint, timestamp);
        Ok(())
    }

    /// What `burn` returns for each input and starting state.
    pub open spec fn burn_outcome(pre: Self, caller: u64, from: u64, amount: i128) -> Result<
        (),
        Error,
    > {
        if !pre.initialized {
            Err(Error::NotInitialized)
        } else if caller != pre.admin {
            Err(Error::Unauthorized)
        } else if amount <= 0 {
            Err(Error::InvalidAmount)
        } else if pre.spec_balance(from) < amount {
            Err(Error::InsufficientBalance)
        } else {
            Ok(())
        }
    }

    /// Burns points out of an account, admin only: balance and supply
    /// shrink by the amount and a `Burn` record with a negative amount joins
    /// the history. Statistics are deliberately not touched. All-or-nothing.
    pub fn burn(&mut self, caller: u64, from: u64, amount: i128, timestamp: u64) -> (r: Result<
        (),
        Error,
    >)
        requires
            old(self).wf(),
        ensures
            final(self).wf(),
            r == Self::burn_outcome(*old(self), caller, from, amount),
            r matches Err(_) ==> *final(self) == *old(self),
            r matches Ok(_) ==> {
                &&& final(self).spec_balance(from) == old(self).spec_balance(from) - amount
                &&& (forall|a: u64|
                    a != from ==> final(self).spec_balance(a) == old(self).spec_balance(a))
                &&& final(self).spec_supply() == old(self).spec_supply() - amount
                &&& final(self).spec_history(from) == push_capped(
                    old(self).spec_history(from),
                    (Transaction {
                        amount: (-amount) as i128,
                        kind: TransactionKind::Burn,
                        timestamp,
                    }),
                )
                &&& (forall|a: u64|
                    a != from ==> final(self).spec_history(a) == old(self).spec_history(a))
                &&& (forall|a: u64| final(self).spec_stats(a) == old(self).spec_stats(a))
                &&& Self::same_config(*old(self), *final(self))
            },
    {
        if !self.initialized {
            return Err(Error::NotInitialized);
        }
        if caller != self.admin {
            return Err(Error::Unauthorized);
        }
        if amount <= 0 {
            return Err(Error::InvalidAmount);
        }
        match self.ledger.debit(from, amount) {
            Ok(()) => {},
            Err(e) => {
                return Err(e);
            },
        }
        self.log.append(from, -amount, TransactionKind::Burn, timestamp);
        Ok(())
    }

    /// Replaces the reward rates, admin only; nothing else changes.
    pub fn update_reward_rates(&mut self, caller: u64, new_earn_rate: i128, new_min_purchase: i128)
        -> (r: Result<(), Error>)
        requires
            old(self).wf(),
            new_earn_rate >= 1,
            new_min_purchase >= 0,
        ensures
            final(self).wf(),
            !old(self).initialized ==> r == Err::<(), Error>(Error::NotInitialized) && *final(self)
                == *old(self),
            old(self).initialized && caller != old(self).admin ==> r == Err::<(), Error>(
                Error::Unauthorized,
            ) && *final(self) == *old(self),
            old(self).initialized && caller == old(self).admin ==> {
                &&& r == Ok::<(), Error>(())
                &&& final(self).rates == (RewardRates {
                    earn_rate: new_earn_rate,
                    min_purchase: new_min_purchase,
                })
                &&& final(self).initialized == old(self).initialized
                &&& final(self).admin == old(self).admin
                &&& final(self).name@ == old(self).name@
                &&& final(self).symbol@ == old(self).symbol@
                &&& final(self).ledger == old(self).ledger
                &&& final(self).log == old(self).log
                &&& final(self).stats == old(self).stats
            },
    {
        if !self.initialized {
            return Err(Error::NotInitialized);
        }
        if caller != self.admin {
            return Err(Error::Unauthorized);
        }
        self.rates = RewardRates { earn_rate: new_earn_rate, min_purchase: new_min_purchase };
        Ok(())
    }

    /// Reads an account's balance; a pure read, missing accounts read zero.
    pub fn balance(&self, user: u64) -> (r: i128)
        requires
            self.wf(),
        ensures
            r as int == self.spec_balance(user),
            r >= 0,
    {
        self.ledger.get_balance(user)
    }

    /// Reads an account's lifetime statistics; a pure read with an all-zero
    /// default.
    pub fn get_user_stats(&self, user: u64) -> (r: UserStats)
        requires
            self.wf(),
        ensures
            r == self.spec_stats(user),
    {
        self.stats.get_stats(user)
    }

    /// Reads a copy of an account's transaction history, oldest first; a
    /// pure read with an empty default.
    pub fn get_transaction_history(&self, user: u64) -> (r: Vec<Transaction>)
        requires
            self.wf(),
        ensures
            r@ == self.spec_history(user),
            r@.len() <= HISTORY_CAPACITY,
    {
        self.log.get_history(user)
    }

    /// Reads the token name, symbol and total supply; a pure read whose
    /// name and symbol fall back to "Loyalty Points" and "LP" before
    /// initialization.
    pub fn get_token_info(&self) -> (r: (String, String, i128))
        requires
            self.wf(),
        ensures
            self.initialized ==> r.0@ == self.name@ && r.1@ == self.symbol@,
            !self.initialized ==> r.0@ == "Loyalty Points"@ && r.1@ == "LP"@,
            r.2 as int == self.spec_supply(),
    {
        if self.initialized {
            (
                String::from_str(self.name.as_str()),
                String::from_str(self.symbol.as_str()),
                self.ledger.total_supply,
            )
        } else {
            (
                String::from_str("Loyalty Points"),
                String::from_str("LP"),
                self.ledger.total_supply,
            )
        }
    }
}

/// The conservation law: in every well-formed state the total supply equals
/// the sum of all account balances. The ledger holds each account at most
/// once, so the sum over its entries is the sum over accounts. Every
/// constructor and operation of `LoyaltyProgram` establishes or preserves
/// well-formedness, so this holds of every reachable state.
pub proof fn lemma_supply_is_sum_of_balances(p: LoyaltyProgram)
    requires
        p.wf(),
    ensures
        p.spec_supply() == sum_balances(p.ledger.accounts@),
{
}

/// The non-negativity law: in every well-formed state no account's balance
/// is negative. Every constructor and operation of `LoyaltyProgram`
/// establishes or preserves well-formedness, so this holds of every
/// reachable state.
pub proof fn lemma_balance_nonnegative(p: LoyaltyProgram, account: u64)
    requires
        p.wf(),
    ensures
        p.spec_balance(account) >= 0,
{
    crate::ledger::lemma_balance_le_sum(p.ledger.accounts@, account);
}

/// The history bound law: in every well-formed state no account's history
/// holds more than `HISTORY_CAPACITY` records.
pub proof fn lemma_history_bounded(p: LoyaltyProgram, account: u64)
    requires
        p.wf(),
    ensures
        p.spec_history(account).len() <= HISTORY_CAPACITY,
{
}

/// The eviction law: appending to a full history drops exactly the oldest
/// record, keeps the others in order, and puts the new record at the tail.
pub proof fn lemma_full_history_evicts_oldest(h: Seq<Transaction>, t: Transaction)
    requires
        h.len() == HISTORY_CAPACITY,
    ensures
        push_capped(h, t).len() == HISTORY_CAPACITY,
        push_capped(h, t)[HISTORY_CAPACITY - 1] == t,
        forall|i: int| 0 <= i < HISTORY_CAPACITY - 1 ==> push_capped(h, t)[i] == h[i + 1],
{
}

} // verus!
