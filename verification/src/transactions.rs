//! The transactions task: an append-only mempool fed over the bus, from
//! which a DA leader draws the oldest transactions when it forms a block.

use vstd::prelude::*;
use crate::data::Transaction;

verus! {

/// The mempool: transactions in arrival order, oldest first.
#[derive(Clone, Debug)]
pub struct Mempool {
    /// Pending transactions, oldest first
    pub txns: Vec<Transaction>,
    /// Whether the task has observed `Shutdown` and exited
    pub exited: bool,
}

impl Mempool {
    /// An empty mempool.
    pub fn new() -> (r: Self)
        ensures
            r.txns@ =~= Seq::<Transaction>::empty(),
            !r.exited,
    {
        Mempool { txns: Vec::new(), exited: false }
    }

    /// Append one submitted transaction.
    pub fn submit(&mut self, t: Transaction)
        ensures
            final(self).txns@ == old(self).txns@.push(t),
            final(self).exited == old(self).exited,
    {
        self.txns.push(t);
    }

    /// Append a batch received from the network, keeping arrival order.
    pub fn receive(&mut self, batch: &Vec<Transaction>)
        ensures
            final(self).txns@ == old(self).txns@ + batch@,
            final(self).exited == old(self).exited,
    {
        let mut i: usize = 0;
        while i < batch.len()
            invariant
                i <= batch@.len(),
                self.txns@ == old(self).txns@ + batch@.take(i as int),
                self.exited == old(self).exited,
            decreases batch@.len() - i,
        {
            proof {
                assert(old(self).txns@ + batch@.take(i + 1) =~= (old(self).txns@ + batch@.take(
                    i as int,
                )).push(batch@[i as int]));
            }
            self.txns.push(batch[i]);
            i = i + 1;
        }
        proof {
            assert(batch@.take(batch@.len() as int) =~= batch@);
        }
    }

    /// Draw a block: the oldest transactions, as many as allowed, provided
    /// the minimum is met. The drawn transactions leave the mempool; on
    /// `None` nothing changes.
    pub fn take_block(&mut self, min_transactions: usize, max_transactions: usize) -> (r: Option<
        Vec<Transaction>,
    >)
        ensures
            final(self).exited == old(self).exited,
            old(self).txns@.len() < min_transactions ==> r is None && final(self).txns@ == old(
                self,
            ).txns@,
            old(self).txns@.len() >= min_transactions ==> ({
                let k = if old(self).txns@.len() <= max_transactions {
                    old(self).txns@.len() as int
                } else {
                    max_transactions as int
                };
                r matches Some(b) && b@ == old(self).txns@.take(k) && final(self).txns@ == old(
                    self,
                ).txns@.skip(k)
            }),
    {
        let n = self.txns.len();
        if n < min_transactions {
            return None;
        }
        let k = if n <= max_transactions {
            n
        } else {
            max_transactions
        };
        let mut block: Vec<Transaction> = Vec::new();
        let mut i: usize = 0;
        while i < k
            invariant
                i <= k,
                k <= self.txns@.len(),
                self.txns@ == old(self).txns@,
                block@ == self.txns@.take(i as int),
            decreases k - i,
        {
            proof {
                assert(self.txns@.take(i + 1) =~= self.txns@.take(i as int).push(
                    self.txns@[i as int],
                ));
            }
            block.push(self.txns[i]);
            i = i + 1;
        }
        let mut rest: Vec<Transaction> = Vec::new();
        let mut j: usize = k;
        while j < n
            invariant
                k <= j <= n,
                n == self.txns@.len(),
                self.txns@ == old(self).txns@,
                rest@.len() == j - k,
                forall|a: int| 0 <= a < j - k ==> rest@[a] == self.txns@[a + k],
            decreases n - j,
        {
            rest.push(self.txns[j]);
            j = j + 1;
        }
        proof {
            assert(rest@ =~= old(self).txns@.skip(k as int));
        }
        self.txns = rest;
        Some(block)
    }

    /// Observe `Shutdown`: the task exits.
    pub fn shutdown(&mut self)
        ensures
            final(self).exited,
            final(self).txns@ == old(self).txns@,
    {
        self.exited = true;
    }
}

} // verus!
