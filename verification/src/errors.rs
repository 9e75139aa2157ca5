//! The failure kinds a ledger operation can report.

use vstd::prelude::*;

verus! {

/// Business-rule failures. Every operation returns one of these instead of
/// panicking; callers are expected to dispatch on the kind, not on a message.
#[derive(Clone, Copy, Debug, PartialEq, Eq, Structural)]
pub enum Error {
    /// `initialize` was called a second time.
    AlreadyInitialized,
    /// Any operation other than `initialize` was called before `initialize`.
    NotInitialized,
    /// An amount that must be positive was zero or negative.
    InvalidAmount,
    /// A purchase amount below the configured minimum earns nothing.
    BelowMinimum,
    /// The purchase cleared the minimum but rounded down to zero points.
    NoPointsEarned,
    /// A debit asked for more than the account holds.
    InsufficientBalance,
    /// A transfer named the same account on both sides.
    SelfTransfer,
    /// A privileged operation was called by an account other than the admin.
    Unauthorized,
    /// The operation would have pushed a counter past its integer range.
    Overflow,
}

} // verus!
