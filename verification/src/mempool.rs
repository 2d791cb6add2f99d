//! The transaction pool: a bounded, deduplicated FIFO admission queue.
//! A hash stays known ("in flight") even after its transaction is pulled
//! into a batch, so the same transaction can never be admitted twice
//! unless it is explicitly forgotten.

use vstd::prelude::*;
use crate::transaction::Transaction;

verus! {

#[derive(Debug, Clone, Copy, PartialEq, Eq, Structural)]
pub enum PoolError {
    PoolFull,
    DuplicateTransaction,
}

/// Whether some string in `seen` reads `h`.
pub open spec fn seen_has(seen: Seq<String>, h: Seq<char>) -> bool {
    exists|i: int| 0 <= i < seen.len() && seen[i]@ == h
}

pub struct Mempool {
    pending: Vec<Transaction>,
    seen: Vec<String>,
    max_size: usize,
}

impl Mempool {
    pub closed spec fn pending(&self) -> Seq<Transaction> {
        self.pending@
    }

    pub closed spec fn seen(&self) -> Seq<String> {
        self.seen@
    }

    pub closed spec fn max_size(&self) -> usize {
        self.max_size
    }

    /// Well-formedness: the known hashes are pairwise distinct, so
    /// forgetting one hash forgets every record of it.
    pub open spec fn wf(&self) -> bool {
        forall|a: int, b: int|
            0 <= a < b < self.seen().len() ==> self.seen()[a]@ != self.seen()[b]@
    }

    /// An empty pool admitting at most `max_size` pending transactions.
    pub fn new(max_size: usize) -> (p: Self)
        ensures
            p.wf(),
            p.pending() == Seq::<Transaction>::empty(),
            p.seen() == Seq::<String>::empty(),
            p.max_size() == max_size,
    {
        Mempool { pending: Vec::new(), seen: Vec::new(), max_size }
    }

    fn knows_hash(&self, h: &String) -> (r: bool)
        ensures
            r == seen_has(self.seen(), h@),
    {
        let mut i: usize = 0;
        while i < self.seen.len()
            invariant
                i <= self.seen@.len(),
                forall|j: int| 0 <= j < i ==> self.seen@[j]@ != h@,
            decreases self.seen@.len() - i,
        {
            if self.seen[i] == *h {
                return true;
            }
            i = i + 1;
        }
        false
    }

    /// Admits a transaction. Fails with `PoolFull` when the queue is at
    /// capacity and with `DuplicateTransaction` when the hash is already
    /// known, pending or in flight; the capacity check comes first. On
    /// success the transaction joins the back of the queue and its hash
    /// is returned.
    pub fn add_transaction(&mut self, tx: Transaction) -> (r: Result<String, PoolError>)
        ensures
            final(self).max_size() == old(self).max_size(),
            old(self).pending().len() >= old(self).max_size() ==> r == Result::<String, PoolError>::Err(PoolError::PoolFull),
            (old(self).pending().len() < old(self).max_size() && seen_has(old(self).seen(), tx.hash@))
                ==> r == Result::<String, PoolError>::Err(PoolError::DuplicateTransaction),
            r is Err ==> final(self).pending() == old(self).pending() && final(self).seen() == old(self).seen(),
            r is Ok <==> (old(self).pending().len() < old(self).max_size()
                && !seen_has(old(self).seen(), tx.hash@)),
            r is Ok ==> {
                &&& r->Ok_0@ == tx.hash@
                &&& final(self).pending() == old(self).pending().push(tx)
                &&& final(self).seen().len() == old(self).seen().len() + 1
                &&& final(self).seen().drop_last() == old(self).seen()
                &&& final(self).seen().last()@ == tx.hash@
            },
            old(self).wf() ==> final(self).wf(),
    {
        if self.pending.len() >= self.max_size {
            return Err(PoolError::PoolFull);
        }
        if self.knows_hash(&tx.hash) {
            return Err(PoolError::DuplicateTransaction);
        }
        let h = tx.hash.clone();
        let h2 = tx.hash.clone();
        self.seen.push(h2);
        self.pending.push(tx);
        proof {
            assert(self.seen@.drop_last() =~= old(self).seen@);
            if old(self).wf() {
                assert forall|a: int, b: int|
                    0 <= a < b < self.seen@.len() implies self.seen@[a]@ != self.seen@[b]@ by {
                    if b == self.seen@.len() - 1 {
                        assert(self.seen@[b]@ == tx.hash@);
                        assert(!seen_has(old(self).seen@, tx.hash@));
                        assert(old(self).seen@[a]@ != tx.hash@);
                    }
                }
            }
        }
        Ok(h)
    }

    /// Removes and returns up to `count` transactions in arrival order;
    /// fewer when the pool holds fewer. Their hashes stay known.
    pub fn get_transactions(&mut self, count: usize) -> (r: Vec<Transaction>)
        ensures
            final(self).max_size() == old(self).max_size(),
            final(self).seen() == old(self).seen(),
            old(self).wf() ==> final(self).wf(),
            r@ == old(self).pending().take(vstd::math::min(count as int, old(self).pending().len() as int)),
            final(self).pending() == old(self).pending().skip(vstd::math::min(count as int, old(self).pending().len() as int)),
    {
        let ghost p0 = self.pending@;
        let mut r: Vec<Transaction> = Vec::new();
        let n = if count < self.pending.len() {
            count
        } else {
            self.pending.len()
        };
        let mut i: usize = 0;
        while i < n
            invariant
                i <= n,
                n == vstd::math::min(count as int, p0.len() as int),
                r@ =~= p0.take(i as int),
                self.pending@ =~= p0.skip(i as int),
                self.seen@ == old(self).seen@,
                self.max_size == old(self).max_size,
            decreases n - i,
        {
            let tx = self.pending.remove(0);
            r.push(tx);
            i = i + 1;
            proof {
                assert(r@ =~= p0.take(i as int));
                assert(self.pending@ =~= p0.skip(i as int));
            }
        }
        proof {
            if old(self).wf() {
                assert forall|a: int, b: int|
                    0 <= a < b < self.seen@.len() implies self.seen@[a]@ != self.seen@[b]@ by {
                    assert(old(self).seen()[a]@ != old(self).seen()[b]@);
                }
            }
        }
        r
    }

    /// The number of pending transactions.
    pub fn size(&self) -> (r: usize)
        ensures
            r == self.pending().len(),
    {
        self.pending.len()
    }

    /// Forgets a hash: afterwards the hash is no longer known, so the
    /// same transaction can be admitted again. Pending transactions are
    /// untouched.
    pub fn remove_transaction(&mut self, hash: &str)
        ensures
            final(self).max_size() == old(self).max_size(),
            final(self).pending() == old(self).pending(),
            !seen_has(old(self).seen(), hash@) ==> final(self).seen() == old(self).seen(),
            seen_has(old(self).seen(), hash@) ==> exists|i: int|
                0 <= i < old(self).seen().len() && old(self).seen()[i]@ == hash@
                    && final(self).seen() == old(self).seen().remove(i),
            old(self).wf() ==> final(self).wf(),
            old(self).wf() ==> !seen_has(final(self).seen(), hash@),
    {
        let needle = {
            let mut s = String::new();
            vstd::string::StringExecFns::append(&mut s, hash);
            s
        };
        let mut i: usize = 0;
        while i < self.seen.len()
            invariant
                i <= self.seen@.len(),
                needle@ == hash@,
                forall|j: int| 0 <= j < i ==> self.seen@[j]@ != hash@,
                self.seen@ == old(self).seen@,
                self.pending@ == old(self).pending@,
                self.max_size == old(self).max_size,
            decreases self.seen@.len() - i,
        {
            if self.seen[i] == needle {
                let ghost seen0 = self.seen@;
                let ghost wi = i as int;
                self.seen.remove(i);
                proof {
                    if old(self).wf() {
                        assert(seen0 == old(self).seen());
                        assert forall|j: int|
                            0 <= j < self.seen@.len() implies self.seen@[j]@ != hash@ by {
                            if j < wi {
                                assert(self.seen@[j] == seen0[j]);
                            } else {
                                assert(self.seen@[j] == seen0[j + 1]);
                                assert(old(self).seen()[wi]@ != old(self).seen()[j + 1]@);
                            }
                        }
                        assert forall|a: int, b: int|
                            0 <= a < b < self.seen@.len() implies self.seen@[a]@
                            != self.seen@[b]@ by {
                            let a0: int = if a < wi { a } else { a + 1 };
                            let b0: int = if b < wi { b } else { b + 1 };
                            assert(self.seen@[a] == seen0[a0]);
                            assert(self.seen@[b] == seen0[b0]);
                            assert(old(self).seen()[a0]@ != old(self).seen()[b0]@);
                        }
                    }
                }
                return;
            }
            i = i + 1;
        }
    }
}

} // verus!
