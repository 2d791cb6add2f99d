//! Transactions and their receipts. A transaction's identity is its
//! content hash, a function of sender, recipient, value and nonce.

use vstd::prelude::*;
use vstd::string::StringExecFns;
use crate::hashing::spec_sha256_hex;
use crate::text::spec_udec;

verus! {

/// The hex string identifying a transaction: SHA-256 over the UTF-8 bytes
/// of sender, recipient, value and nonce, written out in that order.
pub open spec fn spec_tx_hash(from: Seq<char>, to: Seq<char>, value: u64, nonce: u64) -> Seq<char> {
    spec_sha256_hex(vstd::utf8::encode_utf8(from + to + spec_udec(value as nat) + spec_udec(nonce as nat)))
}

pub struct Transaction {
    pub from: String,
    pub to: String,
    pub value: u64,
    pub gas_price: u64,
    pub gas_limit: u64,
    pub nonce: u64,
    pub data: Vec<u8>,
    pub signature: Vec<u8>,
    pub hash: String,
}

/// Copies one byte vector, keeping its contents.
pub(crate) fn clone_bytes(v: &Vec<u8>) -> (r: Vec<u8>)
    ensures
        r@ == v@,
{
    let r = v.clone();
    proof {
        assert forall|i: int| 0 <= i < v@.len() implies r@[i] == v@[i] by {
            assert(cloned::<u8>(v@[i], r@[i]));
        }
        assert(r@ =~= v@);
    }
    r
}

impl Clone for Transaction {
    fn clone(&self) -> (res: Self)
        ensures
            res.from == self.from,
            res.to == self.to,
            res.value == self.value,
            res.gas_price == self.gas_price,
            res.gas_limit == self.gas_limit,
            res.nonce == self.nonce,
            res.data@ == self.data@,
            res.signature@ == self.signature@,
            res.hash == self.hash,
    {
        Transaction {
            from: self.from.clone(),
            to: self.to.clone(),
            value: self.value,
            gas_price: self.gas_price,
            gas_limit: self.gas_limit,
            nonce: self.nonce,
            data: clone_bytes(&self.data),
            signature: clone_bytes(&self.signature),
            hash: self.hash.clone(),
        }
    }
}

impl Transaction {
    /// A transaction whose hash binds sender, recipient, value and nonce,
    /// with the default gas price and limit and no payload.
    pub fn new(from: String, to: String, value: u64, nonce: u64) -> (tx: Self)
        ensures
            tx.from@ == from@,
            tx.to@ == to@,
            tx.value == value,
            tx.gas_price == 1_000_000_000u64,
            tx.gas_limit == 21000u64,
            tx.nonce == nonce,
            tx.data@ == Seq::<u8>::empty(),
            tx.signature@ == Seq::<u8>::empty(),
            tx.hash@ == spec_tx_hash(from@, to@, value, nonce),
    {
        let mut tx = Transaction {
            from,
            to,
            value,
            gas_price: 1_000_000_000,
            gas_limit: 21000,
            nonce,
            data: Vec::new(),
            signature: Vec::new(),
            hash: String::new(),
        };
        tx.hash = tx.calculate_hash();
        tx
    }

    /// The content hash of this transaction's identifying fields.
    pub fn calculate_hash(&self) -> (r: String)
        ensures
            r@ == spec_tx_hash(self.from@, self.to@, self.value, self.nonce),
    {
        let mut preimage = self.from.clone();
        preimage.append(self.to.as_str());
        let v = crate::text::u64_to_string(self.value);
        preimage.append(v.as_str());
        let n = crate::text::u64_to_string(self.nonce);
        preimage.append(n.as_str());
        crate::hashing::sha256_hex(preimage.as_str().as_bytes())
    }

    /// Structural validity: non-empty sender and recipient, positive value.
    pub fn verify(&self) -> (r: bool)
        ensures
            r == (self.from@.len() > 0 && self.to@.len() > 0 && self.value > 0),
    {
        !self.from.as_str().is_empty() && !self.to.as_str().is_empty() && self.value > 0
    }
}

pub struct TransactionReceipt {
    pub tx_hash: String,
    pub block_number: u64,
    pub gas_used: u64,
    pub status: bool,
    pub logs: Vec<String>,
}

impl Clone for TransactionReceipt {
    fn clone(&self) -> (res: Self)
        ensures
            res.tx_hash == self.tx_hash,
            res.block_number == self.block_number,
            res.gas_used == self.gas_used,
            res.status == self.status,
            res.logs@ == self.logs@,
    {
        let mut logs: Vec<String> = Vec::new();
        let mut i: usize = 0;
        while i < self.logs.len()
            invariant
                i <= self.logs@.len(),
                logs@ =~= self.logs@.take(i as int),
            decreases self.logs@.len() - i,
        {
            logs.push(self.logs[i].clone());
            i = i + 1;
        }
        proof {
            assert(logs@ =~= self.logs@);
        }
        TransactionReceipt {
            tx_hash: self.tx_hash.clone(),
            block_number: self.block_number,
            gas_used: self.gas_used,
            status: self.status,
            logs,
        }
    }
}

} // verus!
