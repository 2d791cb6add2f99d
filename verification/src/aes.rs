//! A symmetric cipher keyed by the SHA-256 of a password. The keystream
//! is applied by XOR, so deciphering is the same operation; that round
//! trip is proved below.

use vstd::prelude::*;
use vstd::string::StringSliceAdditionalSpecFns;
use crate::hashing::sha256_of;

verus! {

/// Each byte XORed with the key byte at its index modulo 32.
pub open spec fn spec_xor_key(data: Seq<u8>, key: Seq<u8>) -> Seq<u8> {
    Seq::new(data.len(), |i: int| data[i] ^ key[i % 32])
}

pub struct AES256 {
    key: Vec<u8>,
}

impl AES256 {
    pub closed spec fn spec_key(&self) -> Seq<u8> {
        self.key@
    }

    pub open spec fn wf(&self) -> bool {
        self.spec_key().len() == 32
    }

    /// A cipher keyed by the SHA-256 digest of the password.
    pub fn new(password: &str) -> (a: Self)
        ensures
            a.wf(),
            a.spec_key() == sha256_of(password.spec_bytes()),
    {
        let key = crate::hashing::sha256_digest_of_str(password);
        AES256 { key }
    }

    /// The XOR keystream applied to `data`.
    pub fn encrypt(&self, data: &[u8]) -> (r: Vec<u8>)
        requires
            self.wf(),
        ensures
            r@ == spec_xor_key(data@, self.spec_key()),
    {
        let mut out: Vec<u8> = Vec::new();
        let mut i: usize = 0;
        while i < data.len()
            invariant
                self.wf(),
                i <= data@.len(),
                out@.len() == i,
                forall|j: int| 0 <= j < i ==> out@[j] == data@[j] ^ self.spec_key()[j % 32],
            decreases data@.len() - i,
        {
            out.push(data[i] ^ self.key[i % 32]);
            i = i + 1;
        }
        proof {
            assert(out@ =~= spec_xor_key(data@, self.spec_key()));
        }
        out
    }

    /// The inverse of `encrypt`: XOR is its own inverse.
    pub fn decrypt(&self, encrypted: &[u8]) -> (r: Vec<u8>)
        requires
            self.wf(),
        ensures
            r@ == spec_xor_key(encrypted@, self.spec_key()),
    {
        self.encrypt(encrypted)
    }
}

/// Deciphering an enciphered text gives the text back, byte for byte.
pub proof fn lemma_xor_key_roundtrip(data: Seq<u8>, key: Seq<u8>)
    requires
        key.len() == 32,
    ensures
        spec_xor_key(spec_xor_key(data, key), key) =~= data,
{
    assert(forall|a: u8, b: u8| #[trigger] ((a ^ b) ^ b) == a) by (bit_vector);
}

} // verus!
