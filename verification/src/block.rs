//! Blocks: an ordered transaction list under a gas budget, hash-chained
//! through `parent_hash`. A block's hash is a pure function of its
//! number, timestamp, parent hash and transaction count, and is
//! recomputed whenever the transaction list changes.

use vstd::prelude::*;
use vstd::string::StringExecFns;
use crate::hashing::spec_sha256_hex;
use crate::text::{spec_udec, spec_idec};
use crate::transaction::Transaction;

verus! {

/// The hex string identifying a block: SHA-256 over the UTF-8 bytes of
/// its number, timestamp, parent hash and transaction count, written out
/// in that order.
pub open spec fn spec_block_hash(number: u64, timestamp: i64, parent: Seq<char>, count: nat) -> Seq<char> {
    spec_sha256_hex(vstd::utf8::encode_utf8(
        spec_udec(number as nat) + spec_idec(timestamp as int) + parent + spec_udec(count),
    ))
}

/// The gas claimed by a list of transactions: the sum of their limits.
pub open spec fn spec_gas_total(txs: Seq<Transaction>) -> int
    decreases txs.len(),
{
    if txs.len() == 0 {
        0
    } else {
        spec_gas_total(txs.drop_last()) + txs.last().gas_limit
    }
}

pub struct Block {
    pub number: u64,
    pub timestamp: i64,
    pub transactions: Vec<Transaction>,
    pub parent_hash: String,
    pub hash: String,
    pub state_root: String,
    pub gas_used: u64,
    pub gas_limit: u64,
    pub validator: String,
}

impl Block {
    /// Well-formedness: the recorded gas is exactly the sum of the
    /// included transactions' limits, stays within the block's budget,
    /// and the recorded hash matches the block's fields.
    pub open spec fn wf(&self) -> bool {
        &&& self.gas_used == spec_gas_total(self.transactions@)
        &&& self.gas_used <= self.gas_limit
        &&& self.hash@ == spec_block_hash(
            self.number,
            self.timestamp,
            self.parent_hash@,
            self.transactions@.len(),
        )
    }

    /// An empty block at the given timestamp, budgeted at thirty million
    /// gas.
    pub fn new_at(number: u64, timestamp: i64, parent_hash: String, validator: String) -> (b: Self)
        ensures
            b.number == number,
            b.timestamp == timestamp,
            b.transactions@ == Seq::<Transaction>::empty(),
            b.parent_hash == parent_hash,
            b.state_root@ == "0x0"@,
            b.gas_used == 0,
            b.gas_limit == 30_000_000u64,
            b.validator == validator,
            b.hash@ == spec_block_hash(number, timestamp, parent_hash@, 0),
            b.wf(),
    {
        let mut b = Block {
            number,
            timestamp,
            transactions: Vec::new(),
            parent_hash,
            hash: String::new(),
            state_root: "0x0".to_owned(),
            gas_used: 0,
            gas_limit: 30_000_000,
            validator,
        };
        b.hash = b.calculate_hash();
        b
    }

    /// An empty block stamped with the current wall-clock time.
    pub fn new(number: u64, parent_hash: String, validator: String) -> (b: Self)
        ensures
            b.number == number,
            b.transactions@ == Seq::<Transaction>::empty(),
            b.parent_hash == parent_hash,
            b.state_root@ == "0x0"@,
            b.gas_used == 0,
            b.gas_limit == 30_000_000u64,
            b.validator == validator,
            b.hash@ == spec_block_hash(number, b.timestamp, parent_hash@, 0),
            b.wf(),
    {
        let timestamp = crate::clock::now_timestamp();
        Block::new_at(number, timestamp, parent_hash, validator)
    }

    /// Includes a transaction when its gas limit still fits the block's
    /// budget, recomputing the block hash; returns whether it fit. A
    /// transaction that would overrun the budget leaves the block
    /// untouched.
    pub fn add_transaction(&mut self, tx: Transaction) -> (r: bool)
        requires
            old(self).wf(),
        ensures
            final(self).wf(),
            r == (old(self).gas_used + tx.gas_limit <= old(self).gas_limit),
            !r ==> *final(self) == *old(self),
            r ==> {
                &&& final(self).transactions@ == old(self).transactions@.push(tx)
                &&& final(self).gas_used == old(self).gas_used + tx.gas_limit
                &&& final(self).number == old(self).number
                &&& final(self).timestamp == old(self).timestamp
                &&& final(self).parent_hash == old(self).parent_hash
                &&& final(self).state_root == old(self).state_root
                &&& final(self).gas_limit == old(self).gas_limit
                &&& final(self).validator == old(self).validator
                &&& final(self).hash@ == spec_block_hash(
                    old(self).number,
                    old(self).timestamp,
                    old(self).parent_hash@,
                    old(self).transactions@.len() + 1,
                )
            },
    {
        if tx.gas_limit <= self.gas_limit - self.gas_used {
            let ghost txs0 = self.transactions@;
            self.gas_used = self.gas_used + tx.gas_limit;
            self.transactions.push(tx);
            proof {
                assert(self.transactions@.drop_last() =~= txs0);
            }
            self.hash = self.calculate_hash();
            true
        } else {
            false
        }
    }

    /// The hash of this block's fields.
    pub fn calculate_hash(&self) -> (r: String)
        ensures
            r@ == spec_block_hash(
                self.number,
                self.timestamp,
                self.parent_hash@,
                self.transactions@.len(),
            ),
    {
        let mut preimage = crate::text::u64_to_string(self.number);
        let t = crate::text::i64_to_string(self.timestamp);
        preimage.append(t.as_str());
        preimage.append(self.parent_hash.as_str());
        let c = crate::text::usize_to_string(self.transactions.len());
        preimage.append(c.as_str());
        crate::hashing::sha256_hex(preimage.as_str().as_bytes())
    }

    /// Whether the recorded hash matches the block's fields.
    pub fn verify(&self) -> (r: bool)
        ensures
            r == (self.hash@ == spec_block_hash(
                self.number,
                self.timestamp,
                self.parent_hash@,
                self.transactions@.len(),
            )),
    {
        let expected = self.calculate_hash();
        self.hash == expected
    }
}

pub struct BlockHeader {
    pub number: u64,
    pub hash: String,
    pub parent_hash: String,
    pub timestamp: i64,
}

impl BlockHeader {
    /// The header summarizing a block.
    pub fn of_block(block: &Block) -> (h: Self)
        ensures
            h.number == block.number,
            h.hash@ == block.hash@,
            h.parent_hash@ == block.parent_hash@,
            h.timestamp == block.timestamp,
    {
        BlockHeader {
            number: block.number,
            hash: block.hash.clone(),
            parent_hash: block.parent_hash.clone(),
            timestamp: block.timestamp,
        }
    }
}

} // verus!
