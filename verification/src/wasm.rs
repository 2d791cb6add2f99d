//! A registry of deployed bytecode contracts with a simulated call path.

use vstd::prelude::*;
use vstd::string::StringExecFns;
use crate::text::spec_udec;

verus! {

/// Whether some instance carries the contract id.
pub open spec fn instance_has(v: Seq<(String, Vec<u8>)>, id: Seq<char>) -> bool {
    exists|i: int| 0 <= i < v.len() && v[i].0@ == id
}

pub struct WasmVM {
    pub instances: Vec<(String, Vec<u8>)>,
    pub gas_limit: u64,
}

impl WasmVM {
    /// An empty registry with the given gas allowance.
    pub fn new(gas_limit: u64) -> (vm: Self)
        ensures
            vm.instances@ == Seq::<(String, Vec<u8>)>::empty(),
            vm.gas_limit == gas_limit,
    {
        WasmVM { instances: Vec::new(), gas_limit }
    }

    /// Registers bytecode under the next sequential contract id and
    /// returns that id.
    pub fn deploy_contract(&mut self, code: Vec<u8>) -> (r: String)
        ensures
            r@ == "wasm_"@ + spec_udec(old(self).instances@.len() as nat),
            final(self).gas_limit == old(self).gas_limit,
            final(self).instances@.len() == old(self).instances@.len() + 1,
            final(self).instances@.drop_last() == old(self).instances@,
            final(self).instances@.last().0@ == r@,
            final(self).instances@.last().1 == code,
    {
        let mut contract_id = "wasm_".to_owned();
        let n = crate::text::usize_to_string(self.instances.len());
        contract_id.append(n.as_str());
        let id2 = contract_id.clone();
        let ghost v0 = self.instances@;
        self.instances.push((id2, code));
        proof {
            assert(self.instances@.drop_last() =~= v0);
        }
        contract_id
    }

    /// Simulated execution: known contracts answer with a fixed result,
    /// unknown ones are refused.
    pub fn execute(&self, contract_id: &str, method: &str, params: Vec<u8>) -> (r: Result<
        Vec<u8>,
        String,
    >)
        ensures
            r is Ok <==> instance_has(self.instances@, contract_id@),
            r is Ok ==> r->Ok_0@ == seq![1u8, 2u8, 3u8, 4u8],
            r is Err ==> r->Err_0@ == "Contract not found"@,
    {
        let mut i: usize = 0;
        let mut found = false;
        let needle = contract_id.to_owned();
        while i < self.instances.len()
            invariant
                i <= self.instances@.len(),
                needle@ == contract_id@,
                !found ==> forall|j: int| 0 <= j < i ==> self.instances@[j].0@ != contract_id@,
                found ==> instance_has(self.instances@, contract_id@),
            decreases self.instances@.len() - i,
        {
            if self.instances[i].0 == needle {
                found = true;
            }
            i = i + 1;
        }
        if !found {
            return Err("Contract not found".to_owned());
        }
        let mut out: Vec<u8> = Vec::new();
        out.push(1);
        out.push(2);
        out.push(3);
        out.push(4);
        proof {
            assert(out@ =~= seq![1u8, 2u8, 3u8, 4u8]);
        }
        Ok(out)
    }

    /// How many contracts are registered.
    pub fn get_contract_count(&self) -> (r: usize)
        ensures
            r == self.instances@.len(),
    {
        self.instances.len()
    }
}

} // verus!
