//! Deployed contracts: bytecode and its keyed storage, behind an engine
//! that deploys at sequential addresses and simulates calls.

use vstd::prelude::*;
use vstd::string::StringExecFns;
use crate::text::spec_udec;

verus! {

pub struct Contract {
    pub address: String,
    pub code: Vec<u8>,
    pub storage: Vec<(String, Vec<u8>)>,
}

/// Whether a contract is deployed at the address.
pub open spec fn engine_has(v: Seq<Contract>, addr: Seq<char>) -> bool {
    exists|i: int| 0 <= i < v.len() && v[i].address@ == addr
}

/// The index of the first contract at the address.
pub open spec fn engine_idx(v: Seq<Contract>, addr: Seq<char>) -> int
    decreases v.len(),
{
    if v.len() == 0 {
        0
    } else if v[0].address@ == addr {
        0
    } else {
        1 + engine_idx(v.drop_first(), addr)
    }
}

proof fn lemma_engine_idx(v: Seq<Contract>, addr: Seq<char>, i: int)
    requires
        0 <= i < v.len(),
        v[i].address@ == addr,
        forall|j: int| 0 <= j < i ==> v[j].address@ != addr,
    ensures
        engine_idx(v, addr) == i,
    decreases i,
{
    if i > 0 {
        lemma_engine_idx(v.drop_first(), addr, i - 1);
    }
}

pub struct ContractEngine {
    pub contracts: Vec<Contract>,
}

impl ContractEngine {
    /// No contracts deployed yet.
    pub fn new() -> (e: Self)
        ensures
            e.contracts@ == Seq::<Contract>::empty(),
    {
        ContractEngine { contracts: Vec::new() }
    }

    /// Deploys bytecode at the next sequential address and returns it.
    pub fn deploy(&mut self, code: Vec<u8>) -> (r: String)
        ensures
            r@ == "0xContract"@ + spec_udec(old(self).contracts@.len() as nat),
            final(self).contracts@.len() == old(self).contracts@.len() + 1,
            final(self).contracts@.drop_last() == old(self).contracts@,
            final(self).contracts@.last().address@ == r@,
            final(self).contracts@.last().code == code,
            final(self).contracts@.last().storage@ == Seq::<(String, Vec<u8>)>::empty(),
    {
        let mut address = "0xContract".to_owned();
        let n = crate::text::usize_to_string(self.contracts.len());
        address.append(n.as_str());
        let addr2 = address.clone();
        let contract = Contract { address: addr2, code, storage: Vec::new() };
        let ghost v0 = self.contracts@;
        self.contracts.push(contract);
        proof {
            assert(self.contracts@.drop_last() =~= v0);
        }
        address
    }

    /// Simulated execution: known contracts answer with a fixed result,
    /// unknown ones are refused.
    pub fn call(&self, address: &str, method: &str, params: Vec<u8>) -> (r: Result<Vec<u8>, String>)
        ensures
            r is Ok <==> engine_has(self.contracts@, address@),
            r is Ok ==> r->Ok_0@ == seq![1u8, 2u8, 3u8, 4u8],
            r is Err ==> r->Err_0@ == "Contract not found"@,
    {
        match self.find(address) {
            Some(_i) => {
                let mut out: Vec<u8> = Vec::new();
                out.push(1);
                out.push(2);
                out.push(3);
                out.push(4);
                proof {
                    assert(out@ =~= seq![1u8, 2u8, 3u8, 4u8]);
                }
                Ok(out)
            },
            None => Err("Contract not found".to_owned()),
        }
    }

    /// The bytecode deployed at an address, if any.
    pub fn get_code(&self, address: &str) -> (r: Option<Vec<u8>>)
        ensures
            r is Some <==> engine_has(self.contracts@, address@),
            r is Some ==> r->0@ == self.contracts@[engine_idx(self.contracts@, address@)].code@,
    {
        match self.find(address) {
            Some(i) => Some(crate::transaction::clone_bytes(&self.contracts[i].code)),
            None => None,
        }
    }

    fn find(&self, address: &str) -> (r: Option<usize>)
        ensures
            match r {
                Some(i) => i < self.contracts@.len() && self.contracts@[i as int].address@
                    == address@ && engine_idx(self.contracts@, address@) == i,
                None => !engine_has(self.contracts@, address@),
            },
    {
        let needle = address.to_owned();
        let mut i: usize = 0;
        while i < self.contracts.len()
            invariant
                i <= self.contracts@.len(),
                needle@ == address@,
                forall|j: int| 0 <= j < i ==> self.contracts@[j].address@ != address@,
            decreases self.contracts@.len() - i,
        {
            if self.contracts[i].address == needle {
                proof {
                    lemma_engine_idx(self.contracts@, address@, i as int);
                }
                return Some(i);
            }
            i = i + 1;
        }
        None
    }
}

} // verus!
