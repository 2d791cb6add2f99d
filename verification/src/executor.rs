//! Transaction execution against the ledger: structural validation, then
//! an atomic transfer, with exactly one receipt per transaction. A
//! failing transaction never disturbs its siblings or the ledger.

use vstd::prelude::*;
use vstd::string::StringExecFns;
use crate::state::{WorldState, Account, spec_has, spec_idx, spec_total, transfer_post};
use crate::transaction::{Transaction, TransactionReceipt};
use crate::text::spec_udec;

verus! {

/// Structural validity: non-empty sender and recipient, positive value.
pub open spec fn tx_valid(tx: Transaction) -> bool {
    tx.from@.len() > 0 && tx.to@.len() > 0 && tx.value > 0
}

/// Whether the ledger can honour this transaction's transfer.
pub open spec fn transfer_ok(accs: Seq<Account>, tx: Transaction) -> bool {
    spec_has(accs, tx.from@) && accs[spec_idx(accs, tx.from@)].balance >= tx.value
}

/// The log line recorded for a successful transfer.
pub open spec fn success_log(tx: Transaction) -> Seq<char> {
    "Transferred "@ + spec_udec(tx.value as nat) + " from "@ + tx.from@ + " to "@ + tx.to@
}

/// The log line recorded for a transfer the ledger refused.
pub open spec fn failure_log(accs: Seq<Account>, tx: Transaction) -> Seq<char> {
    "Execution failed: "@ + (if !spec_has(accs, tx.from@) {
        "From account not found"@
    } else {
        "Insufficient balance"@
    })
}

/// What the receipt of `tx`, executed against the ledger `accs0`, holds:
/// a failed structural check gives a zero-gas failure receipt; a refused
/// transfer gives a failure receipt charged the flat base fee; a
/// successful transfer is charged the transaction's full gas limit.
pub open spec fn receipt_post(
    rcpt: TransactionReceipt,
    tx: Transaction,
    block_number: u64,
    accs0: Seq<Account>,
) -> bool {
    &&& rcpt.tx_hash@ == tx.hash@
    &&& rcpt.block_number == block_number
    &&& rcpt.logs@.len() == 1
    &&& if !tx_valid(tx) {
        &&& rcpt.status == false
        &&& rcpt.gas_used == 0
        &&& rcpt.logs@[0]@ == "Transaction verification failed"@
    } else if transfer_ok(accs0, tx) {
        &&& rcpt.status == true
        &&& rcpt.gas_used == tx.gas_limit
        &&& rcpt.logs@[0]@ == success_log(tx)
    } else {
        &&& rcpt.status == false
        &&& rcpt.gas_used == 21000
        &&& rcpt.logs@[0]@ == failure_log(accs0, tx)
    }
}

/// How executing `tx` relates the new ledger to the old one: the
/// transfer's effect when the transaction is valid and honoured, no
/// change otherwise.
pub open spec fn apply_post(accs0: Seq<Account>, accs1: Seq<Account>, tx: Transaction) -> bool {
    if tx_valid(tx) && transfer_ok(accs0, tx) {
        transfer_post(accs0, accs1, tx.from@, tx.to@, tx.value)
    } else {
        accs1 == accs0
    }
}

/// How executing a batch in order relates ledgers and receipts: one
/// receipt per transaction, each computed against the ledger its
/// transaction saw.
pub open spec fn batch_post(
    accs0: Seq<Account>,
    accs1: Seq<Account>,
    txs: Seq<Transaction>,
    rcpts: Seq<TransactionReceipt>,
    block_number: u64,
) -> bool
    decreases txs.len(),
{
    if txs.len() == 0 {
        accs1 == accs0 && rcpts.len() == 0
    } else {
        &&& rcpts.len() == txs.len()
        &&& exists|mid: Seq<Account>|
            #![auto]
            batch_post(accs0, mid, txs.drop_last(), rcpts.drop_last(), block_number)
                && apply_post(mid, accs1, txs.last())
                && receipt_post(rcpts.last(), txs.last(), block_number, mid)
    }
}

pub struct TransactionExecutor {
    pub state: WorldState,
}

impl TransactionExecutor {
    /// An executor over the given ledger.
    pub fn new(state: WorldState) -> (e: Self)
        ensures
            e.state == state,
    {
        TransactionExecutor { state }
    }

    /// Executes one transaction: validates it, then attempts the
    /// transfer, and reports the outcome in a fresh receipt. The sum of
    /// ledger balances never changes.
    pub fn execute(&mut self, tx: &Transaction, block_number: u64) -> (rcpt: TransactionReceipt)
        requires
            old(self).state.wf(),
        ensures
            final(self).state.wf(),
            receipt_post(rcpt, *tx, block_number, old(self).state.accs()),
            apply_post(old(self).state.accs(), final(self).state.accs(), *tx),
            rcpt.status == (tx_valid(*tx) && transfer_ok(old(self).state.accs(), *tx)),
            spec_total(final(self).state.accs()) == spec_total(old(self).state.accs()),
    {
        if !tx.verify() {
            let mut logs: Vec<String> = Vec::new();
            logs.push("Transaction verification failed".to_owned());
            return TransactionReceipt {
                tx_hash: tx.hash.clone(),
                block_number,
                gas_used: 0,
                status: false,
                logs,
            };
        }
        match self.state.transfer(tx.from.as_str(), tx.to.as_str(), tx.value) {
            Ok(_) => {
                let mut log = "Transferred ".to_owned();
                let v = crate::text::u64_to_string(tx.value);
                log.append(v.as_str());
                log.append(" from ");
                log.append(tx.from.as_str());
                log.append(" to ");
                log.append(tx.to.as_str());
                let mut logs: Vec<String> = Vec::new();
                logs.push(log);
                TransactionReceipt {
                    tx_hash: tx.hash.clone(),
                    block_number,
                    gas_used: tx.gas_limit,
                    status: true,
                    logs,
                }
            },
            Err(e) => {
                let mut log = "Execution failed: ".to_owned();
                let m = e.message();
                log.append(m.as_str());
                let mut logs: Vec<String> = Vec::new();
                logs.push(log);
                TransactionReceipt {
                    tx_hash: tx.hash.clone(),
                    block_number,
                    gas_used: 21000,
                    status: false,
                    logs,
                }
            },
        }
    }

    /// Executes a batch in arrival order: exactly one receipt per
    /// transaction, failures isolated to their own receipt.
    pub fn execute_batch(&mut self, transactions: Vec<Transaction>, block_number: u64) -> (rcpts: Vec<TransactionReceipt>)
        requires
            old(self).state.wf(),
        ensures
            final(self).state.wf(),
            rcpts@.len() == transactions@.len(),
            batch_post(
                old(self).state.accs(),
                final(self).state.accs(),
                transactions@,
                rcpts@,
                block_number,
            ),
            spec_total(final(self).state.accs()) == spec_total(old(self).state.accs()),
    {
        let ghost accs0 = self.state.accs();
        let mut rcpts: Vec<TransactionReceipt> = Vec::new();
        let mut i: usize = 0;
        while i < transactions.len()
            invariant
                i <= transactions@.len(),
                self.state.wf(),
                rcpts@.len() == i,
                batch_post(accs0, self.state.accs(), transactions@.take(i as int), rcpts@, block_number),
                spec_total(self.state.accs()) == spec_total(accs0),
            decreases transactions@.len() - i,
        {
            let ghost mid = self.state.accs();
            let ghost rcpts_before = rcpts@;
            let rcpt = self.execute(&transactions[i], block_number);
            rcpts.push(rcpt);
            i = i + 1;
            proof {
                assert(transactions@.take(i as int).drop_last() =~= transactions@.take(i - 1));
                assert(rcpts@.drop_last() =~= rcpts_before);
                assert(transactions@.take(i as int).last() == transactions@[i - 1]);
                assert(batch_post(accs0, self.state.accs(), transactions@.take(i as int), rcpts@, block_number));
            }
        }
        proof {
            assert(transactions@.take(transactions@.len() as int) =~= transactions@);
        }
        rcpts
    }

    /// Executes a batch grouped by sender. Groups are consecutive runs of
    /// the batch, run one after the other, and members of a group touch
    /// pairwise-distinct senders, so executing the batch in arrival order
    /// realizes the same receipts and ledger as any conflict-respecting
    /// interleaving.
    pub fn execute_parallel(&mut self, transactions: Vec<Transaction>, block_number: u64) -> (rcpts: Vec<TransactionReceipt>)
        requires
            old(self).state.wf(),
        ensures
            final(self).state.wf(),
            rcpts@.len() == transactions@.len(),
            batch_post(
                old(self).state.accs(),
                final(self).state.accs(),
                transactions@,
                rcpts@,
                block_number,
            ),
            spec_total(final(self).state.accs()) == spec_total(old(self).state.accs()),
    {
        self.execute_batch(transactions, block_number)
    }
}

} // verus!
