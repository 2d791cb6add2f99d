//! Block production: on each tick, pull a batch from the pool, execute
//! it, fill a block under the gas budget, and commit the block to the
//! hash-chained sequence. An empty pull produces no block.

use vstd::prelude::*;
use vstd::string::StringExecFns;
use crate::block::Block;
use crate::executor::{TransactionExecutor, batch_post};
use crate::mempool::Mempool;
use crate::state::{WorldState, spec_total};
use crate::transaction::{Transaction, TransactionReceipt};

verus! {

/// Hash-chain integrity: each committed block names the hash of its
/// predecessor as its parent.
pub open spec fn chain_linked(chain: Seq<Block>) -> bool {
    forall|i: int|
        0 <= i < chain.len() - 1 ==> chain[i + 1].parent_hash@ == chain[i].hash@
}

/// Block numbers strictly increase along the chain.
pub open spec fn numbers_increase(chain: Seq<Block>) -> bool {
    forall|i: int, j: int|
        0 <= i < j < chain.len() ==> chain[i].number < chain[j].number
}

/// One step of filling a block from executed transactions: a failed
/// transaction is passed over; a successful one is included while its
/// gas limit fits the remaining budget; the first one that does not fit
/// stops the fill for good.
pub open spec fn fill_step(
    acc: (Seq<Transaction>, int, bool),
    tx: Transaction,
    ok: bool,
    limit: int,
) -> (Seq<Transaction>, int, bool) {
    if acc.2 || !ok {
        acc
    } else if acc.1 + tx.gas_limit <= limit {
        (acc.0.push(tx), acc.1 + tx.gas_limit, false)
    } else {
        (acc.0, acc.1, true)
    }
}

/// The transactions a block takes from an executed batch, the gas they
/// claim, and whether the fill was stopped by the budget.
pub open spec fn spec_fill(txs: Seq<Transaction>, ok: Seq<bool>, limit: int) -> (Seq<Transaction>, int, bool)
    decreases txs.len(),
{
    if txs.len() == 0 {
        (Seq::<Transaction>::empty(), 0, false)
    } else {
        fill_step(spec_fill(txs.drop_last(), ok.drop_last(), limit), txs.last(), ok.last(), limit)
    }
}

pub struct BlockProducer {
    pub mempool: Mempool,
    pub executor: TransactionExecutor,
    pub current_block: u64,
    pub last_hash: String,
    pub validator_address: String,
    pub block_time_ms: u64,
    pub chain: Vec<Block>,
}

impl BlockProducer {
    pub open spec fn spec_chain(&self) -> Seq<Block> {
        self.chain@
    }

    pub open spec fn spec_current_block(&self) -> u64 {
        self.current_block
    }

    pub open spec fn spec_last_hash(&self) -> Seq<char> {
        self.last_hash@
    }

    /// Well-formedness: the chain is hash-linked with strictly increasing
    /// block numbers, every committed block is internally sound (its gas
    /// budget respected), the recorded tip hash is the last block's hash
    /// (or the genesis tip), and no block outruns the tick counter.
    pub open spec fn wf(&self) -> bool {
        &&& self.executor.state.wf()
        &&& chain_linked(self.spec_chain())
        &&& numbers_increase(self.spec_chain())
        &&& forall|i: int| 0 <= i < self.spec_chain().len() ==> (#[trigger] self.spec_chain()[i]).wf()
        &&& (if self.spec_chain().len() == 0 {
            self.spec_last_hash() == "0x0"@
        } else {
            self.spec_last_hash() == self.spec_chain().last().hash@
        })
        &&& (self.spec_chain().len() > 0 ==> self.spec_chain().last().number
            <= self.spec_current_block())
        &&& (self.spec_chain().len() > 0 ==> self.spec_chain()[0].parent_hash@ == "0x0"@)
    }

    /// A producer over the given pool and ledger, with no blocks yet.
    pub fn new(mempool: Mempool, state: WorldState, validator_address: String, block_time_ms: u64) -> (p: Self)
        requires
            state.wf(),
        ensures
            p.wf(),
            p.mempool == mempool,
            p.executor.state == state,
            p.validator_address == validator_address,
            p.block_time_ms == block_time_ms,
            p.spec_current_block() == 0,
            p.spec_last_hash() == "0x0"@,
            p.spec_chain() == Seq::<Block>::empty(),
    {
        BlockProducer {
            mempool,
            executor: TransactionExecutor::new(state),
            current_block: 0,
            last_hash: "0x0".to_owned(),
            validator_address,
            block_time_ms,
            chain: Vec::new(),
        }
    }

    /// The number the next produced block would carry.
    pub fn get_current_block_number(&self) -> (r: u64)
        ensures
            r == self.spec_current_block(),
    {
        self.current_block
    }

    /// The committed chain, oldest block first.
    pub fn blocks(&self) -> (r: &Vec<Block>)
        ensures
            r@ == self.spec_chain(),
    {
        &self.chain
    }

    /// One production cycle at the given timestamp. Pulls up to 1000
    /// pending transactions; with none pending (or the tick counter
    /// exhausted) no block is produced. Otherwise every pulled
    /// transaction is executed exactly once, the successful ones fill
    /// the new block in execution order until the gas budget stops the
    /// fill, and the block is committed as the new chain tip, its parent
    /// hash the previous tip's hash. Returns one receipt per pulled
    /// transaction.
    pub fn produce_block(&mut self, timestamp: i64) -> (r: Option<Vec<TransactionReceipt>>)
        requires
            old(self).wf(),
        ensures
            final(self).wf(),
            final(self).mempool.max_size() == old(self).mempool.max_size(),
            final(self).mempool.seen() == old(self).mempool.seen(),
            final(self).validator_address == old(self).validator_address,
            r is None <==> (old(self).mempool.pending().len() == 0
                || old(self).spec_current_block() == u64::MAX),
            old(self).spec_current_block() == u64::MAX ==> *final(self) == *old(self),
            old(self).spec_current_block() < u64::MAX ==> {
                &&& final(self).spec_current_block() == old(self).spec_current_block() + 1
                &&& final(self).mempool.pending() == old(self).mempool.pending().skip(
                    vstd::math::min(1000int, old(self).mempool.pending().len() as int),
                )
            },
            r is None ==> final(self).spec_chain() == old(self).spec_chain()
                && final(self).executor.state.accs() == old(self).executor.state.accs()
                && final(self).spec_last_hash() == old(self).spec_last_hash(),
            r is Some ==> {
                let batch = old(self).mempool.pending().take(
                    vstd::math::min(1000int, old(self).mempool.pending().len() as int),
                );
                let rcpts = r->Some_0@;
                let b = final(self).spec_chain().last();
                &&& rcpts.len() == batch.len()
                &&& batch_post(
                    old(self).executor.state.accs(),
                    final(self).executor.state.accs(),
                    batch,
                    rcpts,
                    final(self).spec_current_block(),
                )
                &&& final(self).spec_chain() == old(self).spec_chain().push(b)
                &&& b.number == final(self).spec_current_block()
                &&& b.timestamp == timestamp
                &&& b.parent_hash@ == old(self).spec_last_hash()
                &&& b.gas_limit == 30_000_000u64
                &&& b.validator@ == old(self).validator_address@
                &&& b.transactions@ == spec_fill(
                    batch,
                    rcpts.map_values(|rc: TransactionReceipt| rc.status),
                    30_000_000int,
                ).0
                &&& final(self).spec_last_hash() == b.hash@
            },
            spec_total(final(self).executor.state.accs()) == spec_total(
                old(self).executor.state.accs(),
            ),
    {
        if self.current_block == u64::MAX {
            return None;
        }
        self.current_block = self.current_block + 1;
        let block_number = self.current_block;
        let parent_hash = self.last_hash.clone();
        let mut batch = self.mempool.get_transactions(1000);
        let ghost batch0 = batch@;
        if batch.len() == 0 {
            return None;
        }
        let validator = self.validator_address.clone();
        let mut block = Block::new_at(block_number, timestamp, parent_hash, validator);
        let ghost accs0 = self.executor.state.accs();
        let mut rcpts: Vec<TransactionReceipt> = Vec::new();
        let ghost mut status: Seq<bool> = Seq::empty();
        let mut stopped = false;
        let mut i: usize = 0;
        let n = batch.len();
        while i < n
            invariant
                i <= n,
                n == batch0.len(),
                batch@ =~= batch0.skip(i as int),
                self.executor.state.wf(),
                rcpts@.len() == i,
                status.len() == i,
                status =~= rcpts@.map_values(|rc: TransactionReceipt| rc.status),
                batch_post(accs0, self.executor.state.accs(), batch0.take(i as int), rcpts@, block_number),
                spec_total(self.executor.state.accs()) == spec_total(accs0),
                block.wf(),
                block.number == block_number,
                block.timestamp == timestamp,
                block.parent_hash@ == old(self).last_hash@,
                block.gas_limit == 30_000_000u64,
                block.validator@ == old(self).validator_address@,
                (block.transactions@, block.gas_used as int, stopped) == spec_fill(
                    batch0.take(i as int),
                    status,
                    30_000_000int,
                ),
                self.mempool.pending() == old(self).mempool.pending().skip(
                    vstd::math::min(1000int, old(self).mempool.pending().len() as int),
                ),
                self.mempool.seen() == old(self).mempool.seen(),
                self.mempool.max_size() == old(self).mempool.max_size(),
                self.current_block == block_number,
                block_number == old(self).current_block + 1,
                self.last_hash@ == old(self).last_hash@,
                self.chain@ == old(self).chain@,
                self.validator_address == old(self).validator_address,
            decreases n - i,
        {
            let ghost mid = self.executor.state.accs();
            let ghost rcpts_before = rcpts@;
            let tx = batch.remove(0);
            let rcpt = self.executor.execute(&tx, block_number);
            let ok = rcpt.status;
            rcpts.push(rcpt);
            proof {
                status = status.push(ok);
            }
            if ok && !stopped {
                let fits = block.add_transaction(tx);
                if !fits {
                    stopped = true;
                }
            }
            i = i + 1;
            proof {
                assert(batch0.take(i as int).drop_last() =~= batch0.take(i - 1));
                assert(rcpts@.drop_last() =~= rcpts_before);
                assert(status.drop_last() =~= rcpts_before.map_values(|rc: TransactionReceipt| rc.status));
                assert(batch0.take(i as int).last() == batch0[i - 1]);
                assert(status =~= rcpts@.map_values(|rc: TransactionReceipt| rc.status));
                assert(batch_post(accs0, self.executor.state.accs(), batch0.take(i as int), rcpts@, block_number));
                assert(spec_fill(batch0.take(i as int), status, 30_000_000int) == fill_step(
                    spec_fill(batch0.take(i - 1), status.drop_last(), 30_000_000int),
                    batch0[i - 1],
                    ok,
                    30_000_000int,
                ));
            }
        }
        proof {
            assert(batch0.take(n as int) =~= batch0);
        }
        // Commit: the block becomes the new chain tip.
        self.last_hash = block.hash.clone();
        let ghost chain0 = self.chain@;
        self.chain.push(block);
        proof {
            assert(self.chain@.last().parent_hash@ == old(self).last_hash@);
            assert forall|p: int|
                0 <= p < self.chain@.len() - 1 implies self.chain@[p + 1].parent_hash@
                == self.chain@[p].hash@ by {
                if p + 1 < chain0.len() {
                    assert(chain_linked(chain0));
                    assert(chain0[p + 1].parent_hash@ == chain0[p].hash@);
                }
            }
            assert forall|p: int, q: int|
                0 <= p < q < self.chain@.len() implies self.chain@[p].number
                < self.chain@[q].number by {
                if q < chain0.len() {
                    assert(numbers_increase(chain0));
                    assert(chain0[p].number < chain0[q].number);
                }
            }
        }
        Some(rcpts)
    }
}

} // verus!
