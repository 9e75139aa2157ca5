//! Per-account lifetime statistics.

use vstd::prelude::*;

use crate::table::{value_of, Table};

verus! {

/// Aggregate lifetime counters for one account. The accumulators never
/// shrink; `last_activity` holds the timestamp of the most recent mutating
/// operation.
#[derive(Clone, Copy, Debug, PartialEq, Eq, Structural)]
pub struct UserStats {
    pub total_earned: i128,
    pub total_redeemed: i128,
    pub transaction_count: u32,
    pub last_activity: u64,
}

/// The statistics of an account never written to: all zero.
pub open spec fn zero_stats() -> UserStats {
    UserStats { total_earned: 0, total_redeemed: 0, transaction_count: 0, last_activity: 0 }
}

impl UserStats {
    /// The all-zero record.
    pub fn zero() -> (r: UserStats)
        ensures
            r == zero_stats(),
    {
        UserStats { total_earned: 0, total_redeemed: 0, transaction_count: 0, last_activity: 0 }
    }
}

/// The per-account statistics store.
pub struct StatsTracker {
    pub stats: Table<UserStats>,
}

impl StatsTracker {
    /// An account's statistics; an account never written reads all zero.
    pub open spec fn stats_of(self, account: u64) -> UserStats {
        value_of(self.stats@, account, zero_stats())
    }

    /// The tracker's invariant: unique keys and non-negative accumulators.
    pub open spec fn wf(self) -> bool {
        &&& self.stats.wf()
        &&& forall|a: u64|
            (#[trigger] self.stats_of(a)).total_earned >= 0 && self.stats_of(a).total_redeemed
                >= 0
    }

    /// An empty tracker.
    pub fn new() -> (r: Self)
        ensures
            r.wf(),
            forall|a: u64| r.stats_of(a) == zero_stats(),
    {
        let r = StatsTracker { stats: Table::new() };
        proof {
            assert forall|a: u64| r.stats_of(a) == zero_stats() by {
                crate::table::lemma_absent_value(r.stats@, a, zero_stats());
            }
        }
        r
    }

    /// Reads an account's statistics; never fails.
    pub fn get_stats(&self, account: u64) -> (r: UserStats)
        requires
            self.wf(),
        ensures
            r == self.stats_of(account),
    {
        match self.stats.get_ref(account) {
            Some(v) => *v,
            None => {
                proof {
                    crate::table::lemma_absent_value(self.stats@, account, zero_stats());
                }
                UserStats::zero()
            },
        }
    }

    /// Adds the deltas to the account's accumulators, counts the operation,
    /// and stamps the activity time; never fails for admitted inputs.
    pub fn record(&mut self, account: u64, earned_delta: i128, redeemed_delta: i128, timestamp: u64)
        requires
            old(self).wf(),
            earned_delta >= 0,
            redeemed_delta >= 0,
            old(self).stats_of(account).total_earned + earned_delta <= i128::MAX,
            old(self).stats_of(account).total_redeemed + redeemed_delta <= i128::MAX,
            old(self).stats_of(account).transaction_count + 1 <= u32::MAX,
        ensures
            final(self).wf(),
            final(self).stats_of(account) == (UserStats {
                total_earned: (old(self).stats_of(account).total_earned + earned_delta) as i128,
                total_redeemed: (old(self).stats_of(account).total_redeemed
                    + redeemed_delta) as i128,
                transaction_count: (old(self).stats_of(account).transaction_count + 1) as u32,
                last_activity: timestamp,
            }),
            forall|a: u64| a != account ==> final(self).stats_of(a) == old(self).stats_of(a),
    {
        let st = self.get_stats(account);
        let ns = UserStats {
            total_earned: st.total_earned + earned_delta,
            total_redeemed: st.total_redeemed + redeemed_delta,
            transaction_count: st.transaction_count + 1,
            last_activity: timestamp,
        };
        self.stats.put(account, ns);
        proof {
            assert forall|a: u64|
                (#[trigger] self.stats_of(a)).total_earned >= 0 && self.stats_of(a).total_redeemed
                    >= 0 by {
                if a == account {
                    assert(self.stats_of(a) == ns);
                } else {
                    assert(self.stats_of(a) == old(self).stats_of(a));
                }
            }
        }
    }
}

} // verus!
