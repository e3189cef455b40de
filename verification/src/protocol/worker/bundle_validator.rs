//! The bundle validator: how a bundle is gathered from its tail.
//!
//! The transactions of a bundle hang together by their trunks: the trunk
//! of each is the next. From the tail on, as many transactions are gathered
//! as the tail says the bundle has, and each must carry the bundle hash of
//! the tail. Transactions are fetched from storage elsewhere: what was
//! fetched is handed in. The bundle that was gathered is then validated.

use vstd::prelude::*;
use crate::bundle::bundle::Bundle;
use crate::bundle::transaction::{
    copy_trits, transaction_views, Transaction, TransactionBuilderView, Transactions,
};
use crate::bundle::validation::one_bundle_hash;
use crate::ternary::trits::trits_eq;

verus! {

/// A bundle that is being gathered: the transactions from the tail on
/// that were fetched so far, and the hash of the one that comes next.
#[derive(Debug)]
pub struct BundleCollector {
    gathered: Vec<Transaction>,
    wanted: Vec<i8>,
}

/// What became of a bundle that is being gathered when a transaction was
/// fetched for it.
#[derive(Debug)]
pub enum Gathered {
    /// The bundle wants another transaction.
    More(BundleCollector),
    /// The bundle is whole.
    Whole(Bundle),
    /// The transaction that the bundle wanted is not stored.
    Missing,
    /// The transaction that the bundle wanted carries another bundle hash
    /// than the tail.
    Foreign,
}

impl BundleCollector {
    /// The transactions gathered so far, from the tail on.
    pub closed spec fn gathered(&self) -> Seq<TransactionBuilderView> {
        transaction_views(self.gathered@)
    }

    /// The hash of the transaction that comes next.
    pub closed spec fn wanted(&self) -> Seq<i8> {
        self.wanted@
    }

    /// What holds of every bundle that is being gathered: it is not whole
    /// yet, its transactions carry one bundle hash, and the transaction
    /// that comes next is the trunk of the last.
    pub open spec fn wf(&self) -> bool {
        &&& one_bundle_hash(self.gathered())
        &&& self.gathered().len() > 0 ==> {
            &&& self.gathered().len() <= self.gathered()[0].last_index.unwrap()
            &&& self.wanted() == self.gathered().last().trunk.unwrap()
        }
    }

    /// A bundle of which nothing is gathered yet: its tail comes next.
    pub fn new(tail: Vec<i8>) -> (collector: Self)
        ensures
            collector.wf(),
            collector.gathered().len() == 0,
            collector.wanted() == tail@,
    {
        Self { gathered: Vec::new(), wanted: tail }
    }

    /// The hash of the transaction that is to be fetched and handed in.
    pub fn wanted_hash(&self) -> (hash: Vec<i8>)
        ensures
            hash@ == self.wanted(),
    {
        copy_trits(&self.wanted)
    }

    /// Takes what storage had for the hash that the bundle wanted.
    ///
    /// Without a transaction the bundle cannot be gathered; nor with one
    /// that carries another bundle hash than the tail. Else the
    /// transaction joins the bundle, which is whole when it holds as many
    /// transactions as its tail says, and wants the trunk of the
    /// transaction until then. A whole bundle holds one more transaction
    /// than the last index that its tail names, all with one bundle hash.
    pub fn on_fetched(self, fetched: Option<Transaction>) -> (res: Gathered)
        requires
            self.wf(),
        ensures
            match fetched {
                None => res is Missing,
                Some(transaction) => {
                    let all = self.gathered().push(transaction@);
                    if self.gathered().len() > 0 && transaction@.bundle != self.gathered()[0].bundle {
                        res is Foreign
                    } else if all.len() > all[0].last_index.unwrap() {
                        res matches Gathered::Whole(bundle) && bundle.transactions() == all
                    } else {
                        res matches Gathered::More(collector) && collector.wf()
                            && collector.gathered() == all && collector.wanted()
                            == transaction@.trunk.unwrap()
                    }
                },
            },
            res matches Gathered::Whole(bundle) ==> bundle.transactions().len()
                == bundle.transactions()[0].last_index.unwrap() + 1 && one_bundle_hash(
                bundle.transactions(),
            ),
    {
        let transaction = match fetched {
            Some(transaction) => transaction,
            None => {
                return Gathered::Missing;
            },
        };
        let mut this = self;
        let ghost held = this.gathered();
        if this.gathered.len() > 0 {
            assert(held[0] == this.gathered@[0]@);
            if !trits_eq(&transaction.bundle.0, &this.gathered[0].bundle.0) {
                return Gathered::Foreign;
            }
        }
        let trunk = copy_trits(&transaction.trunk.0);
        this.gathered.push(transaction);
        let ghost all = this.gathered();
        proof {
            assert(all =~= held.push(transaction@));
            assert forall|i: int| 0 <= i < all.len() implies (#[trigger] all[i]).bundle
                == all[0].bundle by {
                if i < held.len() {
                    assert(all[i] == held[i]);
                    assert(held[i].bundle == held[0].bundle);
                }
            }
            assert(all[0] == this.gathered@[0]@);
        }
        if this.gathered.len() > this.gathered[0].last_index.0 {
            Gathered::Whole(Bundle(Transactions(this.gathered)))
        } else {
            this.wanted = trunk;
            Gathered::More(this)
        }
    }
}

} // verus!
