//! The counters of the protocol, and the rates that are reported from them.

use vstd::prelude::*;

verus! {

/// Counters of what the protocol saw. A counter that is full stays full.
#[derive(Clone, Copy, Debug, PartialEq, Eq, Structural)]
pub struct ProtocolMetrics {
    pub invalid_transactions: u64,
    pub known_transactions: u64,
    pub new_transactions: u64,
    pub invalid_messages: u64,
    pub transaction_requests_missed: u64,
    pub milestone_requests_missed: u64,
}

/// One more, unless the counter is full.
pub open spec fn counted(counter: u64) -> u64 {
    if counter == u64::MAX {
        counter
    } else {
        (counter + 1) as u64
    }
}

fn count(counter: u64) -> (next: u64)
    ensures
        next == counted(counter),
{
    if counter == u64::MAX {
        counter
    } else {
        counter + 1
    }
}

impl ProtocolMetrics {
    pub fn new() -> (metrics: Self)
        ensures
            metrics == (ProtocolMetrics {
                invalid_transactions: 0,
                known_transactions: 0,
                new_transactions: 0,
                invalid_messages: 0,
                transaction_requests_missed: 0,
                milestone_requests_missed: 0,
            }),
    {
        Self {
            invalid_transactions: 0,
            known_transactions: 0,
            new_transactions: 0,
            invalid_messages: 0,
            transaction_requests_missed: 0,
            milestone_requests_missed: 0,
        }
    }

    pub fn invalid_transactions_inc(&mut self)
        ensures
            *final(self) == (ProtocolMetrics {
                invalid_transactions: counted(old(self).invalid_transactions),
                ..*old(self)
            }),
    {
        self.invalid_transactions = count(self.invalid_transactions);
    }

    pub fn known_transactions_inc(&mut self)
        ensures
            *final(self) == (ProtocolMetrics {
                known_transactions: counted(old(self).known_transactions),
                ..*old(self)
            }),
    {
        self.known_transactions = count(self.known_transactions);
    }

    pub fn new_transactions_inc(&mut self)
        ensures
            *final(self) == (ProtocolMetrics {
                new_transactions: counted(old(self).new_transactions),
                ..*old(self)
            }),
    {
        self.new_transactions = count(self.new_transactions);
    }

    pub fn invalid_messages_inc(&mut self)
        ensures
            *final(self) == (ProtocolMetrics {
                invalid_messages: counted(old(self).invalid_messages),
                ..*old(self)
            }),
    {
        self.invalid_messages = count(self.invalid_messages);
    }

    pub fn transaction_requests_missed_inc(&mut self)
        ensures
            *final(self) == (ProtocolMetrics {
                transaction_requests_missed: counted(old(self).transaction_requests_missed),
                ..*old(self)
            }),
    {
        self.transaction_requests_missed = count(self.transaction_requests_missed);
    }

    pub fn milestone_requests_missed_inc(&mut self)
        ensures
            *final(self) == (ProtocolMetrics {
                milestone_requests_missed: counted(old(self).milestone_requests_missed),
                ..*old(self)
            }),
    {
        self.milestone_requests_missed = count(self.milestone_requests_missed);
    }
}

/// How many transactions were seen between two looks at the counters.
#[derive(Clone, Copy, Debug, PartialEq, Eq, Structural)]
pub struct Tps {
    /// Transactions that arrived: new, known and invalid ones.
    pub incoming: u64,
    /// Transactions that were new.
    pub new: u64,
    /// Transactions that were known already.
    pub known: u64,
    /// Transactions that were invalid.
    pub invalid: u64,
}

/// How far a counter moved from `before` to `now`; nothing where it did not move on.
pub open spec fn moved(before: u64, now: u64) -> u64 {
    if now >= before {
        (now - before) as u64
    } else {
        0
    }
}

/// `a + b + c`, held to 64 bits.
pub open spec fn sum3(a: u64, b: u64, c: u64) -> u64 {
    if a + b + c > u64::MAX {
        u64::MAX
    } else {
        (a + b + c) as u64
    }
}

/// The transactions seen between two looks at the counters: what is
/// reported as transactions per second when the looks are a second apart.
pub fn tps(before: &ProtocolMetrics, now: &ProtocolMetrics) -> (rates: Tps)
    ensures
        rates.new == moved(before.new_transactions, now.new_transactions),
        rates.known == moved(before.known_transactions, now.known_transactions),
        rates.invalid == moved(before.invalid_transactions, now.invalid_transactions),
        rates.incoming == sum3(rates.new, rates.known, rates.invalid),
{
    let new: u64 = if now.new_transactions >= before.new_transactions {
        now.new_transactions - before.new_transactions
    } else {
        0
    };
    let known: u64 = if now.known_transactions >= before.known_transactions {
        now.known_transactions - before.known_transactions
    } else {
        0
    };
    let invalid: u64 = if now.invalid_transactions >= before.invalid_transactions {
        now.invalid_transactions - before.invalid_transactions
    } else {
        0
    };
    let total: u128 = new as u128 + known as u128 + invalid as u128;
    let incoming: u64 = if total > 0xffff_ffff_ffff_ffff {
        0xffff_ffff_ffff_ffff
    } else {
        total as u64
    };
    Tps { incoming, new, known, invalid }
}

} // verus!
