//! A bundle: transactions that stand or fall together.

use vstd::prelude::*;
use crate::bundle::transaction::{transaction_views, Transaction, TransactionBuilderView};
use crate::bundle::transaction::Transactions;

verus! {

/// An ordered group of transactions that share a bundle hash.
#[derive(Debug)]
pub struct Bundle(pub Transactions);

impl Bundle {
    /// The transactions, in bundle order.
    pub open spec fn transactions(&self) -> Seq<TransactionBuilderView> {
        transaction_views(self.0.0@)
    }

    /// Number of transactions.
    pub fn len(&self) -> (len: usize)
        ensures
            len == self.transactions().len(),
    {
        self.0.len()
    }

    /// The transaction at `index`, if there is one.
    pub fn get(&self, index: usize) -> (transaction: Option<&Transaction>)
        ensures
            transaction.is_some() == (index < self.transactions().len()),
            transaction.is_some() ==> transaction.unwrap()@ == self.transactions()[index as int],
    {
        if index < self.0.0.len() {
            Some(&self.0.0[index])
        } else {
            None
        }
    }
}

} // verus!
