//! Anonymous transactions: commitments, nullifiers and proof plumbing
//! over plain values.

use vstd::prelude::*;
use vstd::string::StringExecFns;
use crate::text::spec_udec;

verus! {

pub struct ZKProof {
    pub proof_data: Vec<u8>,
    pub public_inputs: Vec<u64>,
}

pub struct PrivateTransaction {
    pub commitment: String,
    pub nullifier: String,
    pub proof: ZKProof,
    pub encrypted_amount: Vec<u8>,
}

/// The commitment text for an amount and recipient.
pub open spec fn spec_commitment(amount: u64, recipient: Seq<char>) -> Seq<char> {
    "commit_"@ + spec_udec(amount as nat) + "_"@ + recipient
}

/// The nullifier text for a commitment.
pub open spec fn spec_nullifier(commitment: Seq<char>) -> Seq<char> {
    "null_"@ + commitment
}

/// The big-endian bytes of an amount.
pub open spec fn spec_be_bytes(amount: u64) -> Seq<u8> {
    seq![
        (amount >> 56) as u8,
        (amount >> 48) as u8,
        (amount >> 40) as u8,
        (amount >> 32) as u8,
        (amount >> 24) as u8,
        (amount >> 16) as u8,
        (amount >> 8) as u8,
        amount as u8,
    ]
}

/// Whether some string in the list reads `h`.
pub open spec fn list_has(v: Seq<String>, h: Seq<char>) -> bool {
    exists|i: int| 0 <= i < v.len() && v[i]@ == h
}

pub struct PrivacyLayer {
    pub commitments: Vec<String>,
    pub nullifiers: Vec<String>,
}

impl PrivacyLayer {
    /// Nothing committed and nothing spent yet.
    pub fn new() -> (p: Self)
        ensures
            p.commitments@ == Seq::<String>::empty(),
            p.nullifiers@ == Seq::<String>::empty(),
    {
        PrivacyLayer { commitments: Vec::new(), nullifiers: Vec::new() }
    }

    /// Builds a private transaction from an amount and recipient:
    /// commitment, derived nullifier, proof over the amount, and the
    /// enciphered amount bytes.
    pub fn create_private_tx(&mut self, amount: u64, recipient: String) -> (tx: PrivateTransaction)
        ensures
            *final(self) == *old(self),
            tx.commitment@ == spec_commitment(amount, recipient@),
            tx.nullifier@ == spec_nullifier(spec_commitment(amount, recipient@)),
            tx.proof.proof_data@ == seq![1u8, 2u8, 3u8],
            tx.proof.public_inputs@ == seq![amount],
            tx.encrypted_amount@ == spec_be_bytes(amount),
    {
        let commitment = self.generate_commitment(amount, recipient.as_str());
        let nullifier = self.generate_nullifier(commitment.as_str());
        let proof = self.generate_proof(amount);
        let encrypted_amount = self.encrypt_amount(amount);
        PrivateTransaction { commitment, nullifier, proof, encrypted_amount }
    }

    /// A proof is accepted exactly when its nullifier is still unspent.
    pub fn verify_proof(&self, tx: &PrivateTransaction) -> (r: bool)
        ensures
            r == !list_has(self.nullifiers@, tx.nullifier@),
    {
        let mut i: usize = 0;
        while i < self.nullifiers.len()
            invariant
                i <= self.nullifiers@.len(),
                forall|j: int| 0 <= j < i ==> self.nullifiers@[j]@ != tx.nullifier@,
            decreases self.nullifiers@.len() - i,
        {
            if self.nullifiers[i] == tx.nullifier {
                return false;
            }
            i = i + 1;
        }
        true
    }

    /// The commitment text for an amount and recipient.
    pub fn generate_commitment(&self, amount: u64, recipient: &str) -> (r: String)
        ensures
            r@ == spec_commitment(amount, recipient@),
    {
        let mut s = "commit_".to_owned();
        let a = crate::text::u64_to_string(amount);
        s.append(a.as_str());
        s.append("_");
        s.append(recipient);
        s
    }

    /// The nullifier text for a commitment.
    pub fn generate_nullifier(&self, commitment: &str) -> (r: String)
        ensures
            r@ == spec_nullifier(commitment@),
    {
        let mut s = "null_".to_owned();
        s.append(commitment);
        s
    }

    /// A stand-in proof over the amount alone.
    pub fn generate_proof(&self, amount: u64) -> (r: ZKProof)
        ensures
            r.proof_data@ == seq![1u8, 2u8, 3u8],
            r.public_inputs@ == seq![amount],
    {
        let mut proof_data: Vec<u8> = Vec::new();
        proof_data.push(1);
        proof_data.push(2);
        proof_data.push(3);
        let mut public_inputs: Vec<u64> = Vec::new();
        public_inputs.push(amount);
        proof {
            assert(proof_data@ =~= seq![1u8, 2u8, 3u8]);
            assert(public_inputs@ =~= seq![amount]);
        }
        ZKProof { proof_data, public_inputs }
    }

    /// The amount as eight big-endian bytes.
    pub fn encrypt_amount(&self, amount: u64) -> (r: Vec<u8>)
        ensures
            r@ == spec_be_bytes(amount),
    {
        let mut out: Vec<u8> = Vec::new();
        out.push((amount >> 56) as u8);
        out.push((amount >> 48) as u8);
        out.push((amount >> 40) as u8);
        out.push((amount >> 32) as u8);
        out.push((amount >> 24) as u8);
        out.push((amount >> 16) as u8);
        out.push((amount >> 8) as u8);
        out.push(amount as u8);
        proof {
            assert(out@ =~= spec_be_bytes(amount));
        }
        out
    }
}

} // verus!
