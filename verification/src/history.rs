//! The bounded per-account transaction history.
//!
//! Each account keeps at most the ten most recent records, oldest first:
//! appending to a full history evicts the oldest record.

use vstd::prelude::*;

use crate::table::{has_key, value_of, Table};

verus! {

/// How many records an account's history holds at most.
pub const HISTORY_CAPACITY: usize = 10;

/// What a transaction record stands for.
#[derive(Clone, Copy, Debug, PartialEq, Eq, Structural)]
pub enum TransactionKind {
    Earn,
    Redeem,
    TransferIn,
    TransferOut,
    Mint,
    Burn,
}

/// One immutable record of a balance-affecting event. A positive amount is
/// a credit, a negative one a debit.
#[derive(Clone, Copy, Debug, PartialEq, Eq, Structural)]
pub struct Transaction {
    pub amount: i128,
    pub kind: TransactionKind,
    pub timestamp: u64,
}

/// Appending under the capacity: the record joins at the tail, and when the
/// history is full the oldest record leaves at the head.
pub open spec fn push_capped(h: Seq<Transaction>, t: Transaction) -> Seq<Transaction> {
    if h.len() < HISTORY_CAPACITY {
        h.push(t)
    } else {
        h.drop_first().push(t)
    }
}

/// The per-account transaction histories.
pub struct TransactionLog {
    pub histories: Table<Vec<Transaction>>,
}

impl TransactionLog {
    /// An account's history, oldest first; an account never written has an
    /// empty history.
    pub open spec fn hist(self, account: u64) -> Seq<Transaction> {
        if has_key(self.histories@, account) {
            value_of(self.histories@, account, arbitrary())@
        } else {
            Seq::<Transaction>::empty()
        }
    }

    /// The log's invariant: unique keys, and no history over capacity.
    pub open spec fn wf(self) -> bool {
        &&& self.histories.wf()
        &&& forall|a: u64| (#[trigger] self.hist(a)).len() <= HISTORY_CAPACITY
    }

    /// An empty log.
    pub fn new() -> (r: Self)
        ensures
            r.wf(),
            forall|a: u64| r.hist(a) == Seq::<Transaction>::empty(),
    {
        let r = TransactionLog { histories: Table::new() };
        proof {
            assert forall|a: u64| r.hist(a) == Seq::<Transaction>::empty() by {
                assert(!has_key(r.histories@, a));
            }
        }
        r
    }

    /// Reads a copy of an account's history; never fails.
    pub fn get_history(&self, account: u64) -> (r: Vec<Transaction>)
        requires
            self.wf(),
        ensures
            r@ == self.hist(account),
    {
        match self.histories.get_ref(account) {
            Some(v) => {
                let mut r: Vec<Transaction> = Vec::new();
                let mut j: usize = 0;
                while j < v.len()
                    invariant
                        j <= v@.len(),
                        r@ == v@.subrange(0, j as int),
                    decreases v@.len() - j,
                {
                    r.push(v[j]);
                    j += 1;
                }
                assert(v@.subrange(0, v@.len() as int) =~= v@);
                r
            },
            None => Vec::new(),
        }
    }

    /// Appends a record to an account's history, evicting the oldest record
    /// first when the history is full; never fails.
    pub fn append(&mut self, account: u64, amount: i128, kind: TransactionKind, timestamp: u64)
        requires
            old(self).wf(),
        ensures
            final(self).wf(),
            final(self).hist(account) == push_capped(
                old(self).hist(account),
                (Transaction { amount, kind, timestamp }),
            ),
            forall|a: u64| a != account ==> final(self).hist(a) == old(self).hist(a),
    {
        let tx = Transaction { amount, kind, timestamp };
        let new_h: Vec<Transaction> = match self.histories.get_ref(account) {
            Some(v) => {
                assert(self.hist(account) == v@);
                assert(v@.len() <= HISTORY_CAPACITY);
                let start: usize = if v.len() == HISTORY_CAPACITY {
                    1
                } else {
                    0
                };
                let mut r: Vec<Transaction> = Vec::new();
                let mut j: usize = start;
                while j < v.len()
                    invariant
                        start <= j <= v@.len(),
                        r@ == v@.subrange(start as int, j as int),
                    decreases v@.len() - j,
                {
                    r.push(v[j]);
                    j += 1;
                }
                r.push(tx);
                proof {
                    if v@.len() < HISTORY_CAPACITY {
                        assert(v@.subrange(0, v@.len() as int) =~= v@);
                    } else {
                        assert(v@.subrange(1, v@.len() as int) =~= v@.drop_first());
                    }
                }
                r
            },
            None => {
                let mut r: Vec<Transaction> = Vec::new();
                r.push(tx);
                proof {
                    assert(Seq::<Transaction>::empty().push(tx) =~= r@);
                }
                r
            },
        };
        assert(new_h@ == push_capped(self.hist(account), tx));
        self.histories.put(account, new_h);
        proof {
            assert forall|a: u64| a != account implies self.hist(a) == old(self).hist(a) by {
                if has_key(old(self).histories@, a) {
                    assert(value_of(self.histories@, a, arbitrary::<Vec<Transaction>>())
                        == value_of(old(self).histories@, a, arbitrary::<Vec<Transaction>>()));
                }
            }
        }
    }
}

} // verus!
