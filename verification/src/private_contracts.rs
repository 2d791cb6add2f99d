//! Confidential contracts: encrypted bytecode and state, access control,
//! and proofs of execution. The cipher is a keyed XOR stream; keys are
//! held by a key manager.

use vstd::prelude::*;
use vstd::string::StringExecFns;
use vstd::string::StringSliceAdditionalSpecFns;
use crate::text::spec_udec;

verus! {

#[derive(Debug)]
pub struct EncryptedData {
    pub ciphertext: Vec<u8>,
    pub encryption_key_id: String,
    pub nonce: Vec<u8>,
    pub authenticated: bool,
}

pub struct AccessControl {
    pub allowed_callers: Vec<String>,
    pub public_read: bool,
    pub public_write: bool,
}

pub struct PrivateContract {
    pub address: String,
    pub owner: String,
    pub encrypted_bytecode: Vec<u8>,
    pub encrypted_state: Vec<(String, EncryptedData)>,
    pub access_control: AccessControl,
    pub deployed_at: u64,
}

pub struct UserKeys {
    pub public_key: Vec<u8>,
    pub encrypted_private_key: Vec<u8>,
    pub viewing_key: Option<Vec<u8>>,
}

pub struct ExecutionProof {
    pub contract_address: String,
    pub function_hash: String,
    pub proof: Vec<u8>,
    pub timestamp: u64,
}

/// Each byte XORed with the key byte at its index modulo the key length.
pub open spec fn spec_xor_cycle(data: Seq<u8>, key: Seq<u8>) -> Seq<u8>
    recommends
        key.len() > 0,
{
    Seq::new(data.len(), |i: int| data[i] ^ key[i % (key.len() as int)])
}

/// Whether a key is stored under the id.
pub open spec fn key_store_has(v: Seq<(String, Vec<u8>)>, id: Seq<char>) -> bool {
    exists|i: int| 0 <= i < v.len() && v[i].0@ == id
}

/// The index of the first key stored under the id.
pub open spec fn key_store_idx(v: Seq<(String, Vec<u8>)>, id: Seq<char>) -> int
    decreases v.len(),
{
    if v.len() == 0 {
        0
    } else if v[0].0@ == id {
        0
    } else {
        1 + key_store_idx(v.drop_first(), id)
    }
}

proof fn lemma_key_store_idx(v: Seq<(String, Vec<u8>)>, id: Seq<char>, i: int)
    requires
        0 <= i < v.len(),
        v[i].0@ == id,
        forall|j: int| 0 <= j < i ==> v[j].0@ != id,
    ensures
        key_store_idx(v, id) == i,
    decreases i,
{
    if i > 0 {
        lemma_key_store_idx(v.drop_first(), id, i - 1);
    }
}

/// The key the store holds under an id (meaningful when `key_store_has`
/// holds).
pub open spec fn stored_key(ks: Seq<(String, Vec<u8>)>, id: Seq<char>) -> Seq<u8> {
    ks[key_store_idx(ks, id)].1@
}

/// One deciphered input is sound: its key is on file, non-empty, and
/// the output is the keyed XOR stream applied to the ciphertext.
pub open spec fn decrypted_ok(
    ks: Seq<(String, Vec<u8>)>,
    inputs: Seq<EncryptedData>,
    outs: Seq<Vec<u8>>,
    j: int,
) -> bool
    recommends
        0 <= j < inputs.len(),
        j < outs.len(),
{
    &&& key_store_has(ks, inputs[j].encryption_key_id@)
    &&& stored_key(ks, inputs[j].encryption_key_id@).len() > 0
    &&& outs[j]@ == spec_xor_cycle(
        inputs[j].ciphertext@,
        stored_key(ks, inputs[j].encryption_key_id@),
    )
}

/// The fixed demonstration key: thirty-two bytes of 0xAB.
pub open spec fn spec_demo_key() -> Seq<u8> {
    Seq::new(32, |i: int| 0xABu8)
}

pub struct KeyManager {
    pub encryption_keys: Vec<(String, Vec<u8>)>,
    pub user_keys: Vec<(String, UserKeys)>,
}

impl KeyManager {
    /// No keys held yet.
    pub fn new() -> (m: Self)
        ensures
            m.encryption_keys@ == Seq::<(String, Vec<u8>)>::empty(),
            m.user_keys@ == Seq::<(String, UserKeys)>::empty(),
    {
        KeyManager { encryption_keys: Vec::new(), user_keys: Vec::new() }
    }

    /// Issues the key for a contract address and stores it under that
    /// address, replacing any earlier one.
    pub fn generate_key(&mut self, contract_address: &str) -> (r: Vec<u8>)
        ensures
            r@ == spec_demo_key(),
            final(self).user_keys@ == old(self).user_keys@,
            key_store_has(final(self).encryption_keys@, contract_address@),
            key_store_has(old(self).encryption_keys@, contract_address@) ==> {
                let i = key_store_idx(old(self).encryption_keys@, contract_address@);
                &&& final(self).encryption_keys@.len() == old(self).encryption_keys@.len()
                &&& final(self).encryption_keys@[i].0@ == contract_address@
                &&& final(self).encryption_keys@[i].1@ == spec_demo_key()
                &&& forall|j: int|
                    0 <= j < old(self).encryption_keys@.len() && j != i
                        ==> final(self).encryption_keys@[j] == old(self).encryption_keys@[j]
            },
            !key_store_has(old(self).encryption_keys@, contract_address@) ==> {
                &&& final(self).encryption_keys@.len() == old(self).encryption_keys@.len() + 1
                &&& final(self).encryption_keys@.drop_last() == old(self).encryption_keys@
                &&& final(self).encryption_keys@.last().0@ == contract_address@
                &&& final(self).encryption_keys@.last().1@ == spec_demo_key()
            },
    {
        let mut key: Vec<u8> = Vec::new();
        let mut k: usize = 0;
        while k < 32
            invariant
                k <= 32,
                key@.len() == k,
                forall|j: int| 0 <= j < k ==> key@[j] == 0xABu8,
            decreases 32 - k,
        {
            key.push(0xAB);
            k = k + 1;
        }
        proof {
            assert(key@ =~= spec_demo_key());
        }
        let stored = crate::transaction::clone_bytes(&key);
        let ghost v0 = self.encryption_keys@;
        let needle = contract_address.to_owned();
        let mut i: usize = 0;
        while i < self.encryption_keys.len()
            invariant
                i <= v0.len(),
                v0 == old(self).encryption_keys@,
                self.encryption_keys@ == v0,
                self.user_keys@ == old(self).user_keys@,
                needle@ == contract_address@,
                stored@ == spec_demo_key(),
                key@ == spec_demo_key(),
                forall|j: int| 0 <= j < i ==> v0[j].0@ != contract_address@,
            decreases v0.len() - i,
        {
            if self.encryption_keys[i].0 == needle {
                let _old_entry = self.encryption_keys.remove(i);
                self.encryption_keys.insert(i, (needle, stored));
                proof {
                    assert(self.encryption_keys@ =~= v0.update(
                        i as int,
                        self.encryption_keys@[i as int],
                    ));
                    lemma_key_store_idx(v0, contract_address@, i as int);
                    assert(self.encryption_keys@[i as int].0@ == contract_address@);
                }
                return key;
            }
            i = i + 1;
        }
        self.encryption_keys.push((needle, stored));
        proof {
            assert(self.encryption_keys@.drop_last() =~= v0);
            assert(self.encryption_keys@[self.encryption_keys@.len() - 1].0@ == contract_address@);
        }
        key
    }

    /// The key stored under a contract address, or a refusal.
    pub fn get_key(&self, contract_address: &str) -> (r: Result<Vec<u8>, String>)
        ensures
            r is Ok <==> key_store_has(self.encryption_keys@, contract_address@),
            r is Ok ==> r->Ok_0@ == self.encryption_keys@[key_store_idx(
                self.encryption_keys@,
                contract_address@,
            )].1@,
            r is Err ==> r->Err_0@ == "Key not found"@,
    {
        let needle = contract_address.to_owned();
        let mut i: usize = 0;
        while i < self.encryption_keys.len()
            invariant
                i <= self.encryption_keys@.len(),
                needle@ == contract_address@,
                forall|j: int| 0 <= j < i ==> self.encryption_keys@[j].0@ != contract_address@,
            decreases self.encryption_keys@.len() - i,
        {
            if self.encryption_keys[i].0 == needle {
                proof {
                    lemma_key_store_idx(self.encryption_keys@, contract_address@, i as int);
                }
                return Ok(crate::transaction::clone_bytes(&self.encryption_keys[i].1));
            }
            i = i + 1;
        }
        Err("Key not found".to_owned())
    }

    /// Viewing-key review; every key is accepted by this placeholder.
    pub fn verify_viewing_key(&self, contract_address: &str, viewing_key: &[u8]) -> (r: bool)
        ensures
            r,
    {
        true
    }
}

/// Whether a contract is stored under the address.
pub open spec fn contract_has(v: Seq<PrivateContract>, addr: Seq<char>) -> bool {
    exists|i: int| 0 <= i < v.len() && v[i].address@ == addr
}

/// The index of the first contract stored under the address.
pub open spec fn contract_idx(v: Seq<PrivateContract>, addr: Seq<char>) -> int
    decreases v.len(),
{
    if v.len() == 0 {
        0
    } else if v[0].address@ == addr {
        0
    } else {
        1 + contract_idx(v.drop_first(), addr)
    }
}

proof fn lemma_contract_idx(v: Seq<PrivateContract>, addr: Seq<char>, i: int)
    requires
        0 <= i < v.len(),
        v[i].address@ == addr,
        forall|j: int| 0 <= j < i ==> v[j].address@ != addr,
    ensures
        contract_idx(v, addr) == i,
    decreases i,
{
    if i > 0 {
        lemma_contract_idx(v.drop_first(), addr, i - 1);
    }
}

/// Whether some string in the list reads `s`.
pub open spec fn callers_have(v: Seq<String>, s: Seq<char>) -> bool {
    exists|i: int| 0 <= i < v.len() && v[i]@ == s
}

pub struct PrivateContractVM {
    pub contracts: Vec<PrivateContract>,
    pub encrypted_state: Vec<(String, EncryptedData)>,
    pub execution_proofs: Vec<ExecutionProof>,
    pub key_manager: KeyManager,
}

impl PrivateContractVM {
    /// An empty confidential VM.
    pub fn new() -> (vm: Self)
        ensures
            vm.contracts@ == Seq::<PrivateContract>::empty(),
            vm.encrypted_state@ == Seq::<(String, EncryptedData)>::empty(),
            vm.execution_proofs@ == Seq::<ExecutionProof>::empty(),
            vm.key_manager.encryption_keys@ == Seq::<(String, Vec<u8>)>::empty(),
            vm.key_manager.user_keys@ == Seq::<(String, UserKeys)>::empty(),
    {
        PrivateContractVM {
            contracts: Vec::new(),
            encrypted_state: Vec::new(),
            execution_proofs: Vec::new(),
            key_manager: KeyManager::new(),
        }
    }

    /// Whether the caller may act on the contract: its owner and its
    /// allow-listed callers may.
    pub fn check_access(&self, contract: &PrivateContract, caller: &str) -> (r: bool)
        ensures
            r == (contract.owner@ == caller@ || callers_have(
                contract.access_control.allowed_callers@,
                caller@,
            )),
    {
        let needle = caller.to_owned();
        if contract.owner == needle {
            return true;
        }
        let mut i: usize = 0;
        while i < contract.access_control.allowed_callers.len()
            invariant
                i <= contract.access_control.allowed_callers@.len(),
                needle@ == caller@,
                forall|j: int|
                    0 <= j < i ==> contract.access_control.allowed_callers@[j]@ != caller@,
            decreases contract.access_control.allowed_callers@.len() - i,
        {
            if contract.access_control.allowed_callers[i] == needle {
                return true;
            }
            i = i + 1;
        }
        false
    }

    /// The keyed XOR stream applied to `data`.
    pub fn encrypt_data(&self, data: &[u8], key: &[u8]) -> (r: Vec<u8>)
        requires
            key@.len() > 0,
        ensures
            r@ == spec_xor_cycle(data@, key@),
    {
        let mut out: Vec<u8> = Vec::new();
        let mut i: usize = 0;
        while i < data.len()
            invariant
                key@.len() > 0,
                i <= data@.len(),
                out@.len() == i,
                forall|j: int|
                    0 <= j < i ==> out@[j] == data@[j] ^ key@[j % (key@.len() as int)],
            decreases data@.len() - i,
        {
            out.push(data[i] ^ key[i % key.len()]);
            i = i + 1;
        }
        proof {
            assert(out@ =~= spec_xor_cycle(data@, key@));
        }
        out
    }

    /// The inverse of `encrypt_data`: XOR is its own inverse.
    pub fn decrypt_data(&self, encrypted: &[u8], key: &[u8]) -> (r: Result<Vec<u8>, String>)
        requires
            key@.len() > 0,
        ensures
            r is Ok,
            r->Ok_0@ == spec_xor_cycle(encrypted@, key@),
    {
        Ok(self.encrypt_data(encrypted, key))
    }

    /// Deciphers each input with the key its id names; refused when a key
    /// is missing or empty.
    pub fn decrypt_inputs(&self, inputs: &[EncryptedData]) -> (r: Result<Vec<Vec<u8>>, String>)
        ensures
            r is Ok ==> r->Ok_0@.len() == inputs@.len(),
            r is Ok ==> forall|i: int|
                0 <= i < inputs@.len() ==> #[trigger] decrypted_ok(
                    self.key_manager.encryption_keys@,
                    inputs@,
                    r->Ok_0@,
                    i,
                ),
            r is Err ==> r->Err_0@ == "Key not found"@,
    {
        let ghost ks = self.key_manager.encryption_keys@;
        let mut decrypted: Vec<Vec<u8>> = Vec::new();
        let mut i: usize = 0;
        while i < inputs.len()
            invariant
                ks == self.key_manager.encryption_keys@,
                i <= inputs@.len(),
                decrypted@.len() == i,
                forall|j: int| 0 <= j < i ==> #[trigger] decrypted_ok(ks, inputs@, decrypted@, j),
            decreases inputs@.len() - i,
        {
            let key = match self.key_manager.get_key(inputs[i].encryption_key_id.as_str()) {
                Ok(key) => key,
                Err(e) => {
                    return Err(e);
                },
            };
            if key.len() == 0 {
                return Err("Key not found".to_owned());
            }
            let plaintext = match self.decrypt_data(inputs[i].ciphertext.as_slice(), key.as_slice())
                {
                Ok(p) => p,
                Err(e) => {
                    return Err(e);
                },
            };
            let ghost d0 = decrypted@;
            decrypted.push(plaintext);
            i = i + 1;
            proof {
                assert(key@ == stored_key(ks, inputs@[i - 1].encryption_key_id@));
                assert(decrypted_ok(ks, inputs@, decrypted@, i - 1));
                assert forall|j: int| 0 <= j < i - 1 implies #[trigger] decrypted_ok(
                    ks,
                    inputs@,
                    decrypted@,
                    j,
                ) by {
                    assert(decrypted_ok(ks, inputs@, d0, j));
                    assert(decrypted@[j] == d0[j]);
                }
            }
        }
        Ok(decrypted)
    }

    /// A proof that an execution took place: the contract, the hashed
    /// function name, and a fixed-size placeholder proof body.
    pub fn generate_execution_proof(
        &self,
        contract_address: &str,
        function_name: &str,
        result: &[u8],
    ) -> (r: ExecutionProof)
        ensures
            r.contract_address@ == contract_address@,
            r.function_hash@ == "hash_"@ + function_name@,
            r.proof@ == Seq::new(256, |i: int| 0u8),
    {
        let mut proof_data: Vec<u8> = Vec::new();
        let mut k: usize = 0;
        while k < 256
            invariant
                k <= 256,
                proof_data@.len() == k,
                forall|j: int| 0 <= j < k ==> proof_data@[j] == 0u8,
            decreases 256 - k,
        {
            proof_data.push(0);
            k = k + 1;
        }
        proof {
            assert(proof_data@ =~= Seq::new(256, |i: int| 0u8));
        }
        ExecutionProof {
            contract_address: contract_address.to_owned(),
            function_hash: Self::hash_function_name(function_name),
            proof: proof_data,
            timestamp: Self::current_timestamp(),
        }
    }

    /// The tag a function name is filed under.
    pub fn hash_function_name(name: &str) -> (r: String)
        ensures
            r@ == "hash_"@ + name@,
    {
        let mut s = "hash_".to_owned();
        s.append(name);
        s
    }

    /// The current Unix time in seconds.
    pub fn current_timestamp() -> u64 {
        crate::clock::now_unix_secs()
    }
}


/// Whether contract state holds an entry under the key.
pub open spec fn state_has(v: Seq<(String, EncryptedData)>, k: Seq<char>) -> bool {
    exists|i: int| 0 <= i < v.len() && v[i].0@ == k
}

/// The index of the first state entry under the key.
pub open spec fn state_idx(v: Seq<(String, EncryptedData)>, k: Seq<char>) -> int
    decreases v.len(),
{
    if v.len() == 0 {
        0
    } else if v[0].0@ == k {
        0
    } else {
        1 + state_idx(v.drop_first(), k)
    }
}

proof fn lemma_state_idx(v: Seq<(String, EncryptedData)>, k: Seq<char>, i: int)
    requires
        0 <= i < v.len(),
        v[i].0@ == k,
        forall|j: int| 0 <= j < i ==> v[j].0@ != k,
    ensures
        state_idx(v, k) == i,
    decreases i,
{
    if i > 0 {
        lemma_state_idx(v.drop_first(), k, i - 1);
    }
}

impl PrivateContractVM {
    fn find_contract(&self, address: &str) -> (r: Option<usize>)
        ensures
            match r {
                Some(i) => i < self.contracts@.len() && self.contracts@[i as int].address@
                    == address@ && contract_idx(self.contracts@, address@) == i,
                None => !contract_has(self.contracts@, address@),
            },
    {
        let needle = address.to_owned();
        let mut i: usize = 0;
        while i < self.contracts.len()
            invariant
                i <= self.contracts@.len(),
                needle@ == address@,
                forall|j: int| 0 <= j < i ==> self.contracts@[j].address@ != address@,
            decreases self.contracts@.len() - i,
        {
            if self.contracts[i].address == needle {
                proof {
                    lemma_contract_idx(self.contracts@, address@, i as int);
                }
                return Some(i);
            }
            i = i + 1;
        }
        None
    }

    /// Deploys a confidential contract: its bytecode is enciphered under
    /// a fresh key filed under the new sequential address, access limited
    /// to the owner and the allow-listed callers.
    pub fn deploy_private_contract(
        &mut self,
        bytecode: Vec<u8>,
        owner: String,
        allowed_callers: Vec<String>,
    ) -> (r: Result<String, String>)
        ensures
            r is Ok,
            r->Ok_0@ == "private_contract_"@ + spec_udec(
                vstd::math::min(old(self).contracts@.len() as int + 1, usize::MAX as int) as nat,
            ),
            final(self).contracts@.len() == old(self).contracts@.len() + 1,
            final(self).contracts@.drop_last() == old(self).contracts@,
            final(self).contracts@.last().address@ == r->Ok_0@,
            final(self).contracts@.last().owner == owner,
            final(self).contracts@.last().encrypted_bytecode@ == spec_xor_cycle(
                bytecode@,
                spec_demo_key(),
            ),
            final(self).contracts@.last().encrypted_state@ == Seq::<(String, EncryptedData)>::empty(),
            final(self).contracts@.last().access_control.allowed_callers == allowed_callers,
            !final(self).contracts@.last().access_control.public_read,
            !final(self).contracts@.last().access_control.public_write,
            key_store_has(final(self).key_manager.encryption_keys@, r->Ok_0@),
            final(self).encrypted_state@ == old(self).encrypted_state@,
            final(self).execution_proofs@ == old(self).execution_proofs@,
    {
        let mut address = "private_contract_".to_owned();
        let count = self.contracts.len();
        let next = if count < usize::MAX {
            count + 1
        } else {
            count
        };
        let n = crate::text::usize_to_string(next);
        address.append(n.as_str());
        let encryption_key = self.key_manager.generate_key(address.as_str());
        let encrypted_bytecode = self.encrypt_data(bytecode.as_slice(), encryption_key.as_slice());
        let addr2 = address.clone();
        let contract = PrivateContract {
            address: addr2,
            owner,
            encrypted_bytecode,
            encrypted_state: Vec::new(),
            access_control: AccessControl {
                allowed_callers,
                public_read: false,
                public_write: false,
            },
            deployed_at: Self::current_timestamp(),
        };
        let ghost c0 = self.contracts@;
        self.contracts.push(contract);
        proof {
            assert(self.contracts@.drop_last() =~= c0);
        }
        Ok(address)
    }

    fn find_state(es: &Vec<(String, EncryptedData)>, key: &String) -> (r: Option<usize>)
        ensures
            match r {
                Some(i) => i < es@.len() && es@[i as int].0@ == key@ && state_idx(es@, key@) == i
                    && state_has(es@, key@) && (forall|j: int| 0 <= j < i ==> es@[j].0@ != key@),
                None => !state_has(es@, key@),
            },
    {
        let mut i: usize = 0;
        while i < es.len()
            invariant
                i <= es@.len(),
                forall|j: int| 0 <= j < i ==> es@[j].0@ != key@,
            decreases es@.len() - i,
        {
            if es[i].0 == *key {
                proof {
                    lemma_state_idx(es@, key@, i as int);
                }
                return Some(i);
            }
            i = i + 1;
        }
        None
    }

    /// Enciphers a value under the contract's key and stores it under the
    /// state key; refused for unknown contracts, callers without write
    /// access, and contracts whose key is missing or empty.
    pub fn write_private_state(
        &mut self,
        contract_address: &str,
        state_key: String,
        value: Vec<u8>,
        caller: &str,
    ) -> (r: Result<(), String>)
        ensures
            final(self).encrypted_state@ == old(self).encrypted_state@,
            final(self).execution_proofs@ == old(self).execution_proofs@,
            !contract_has(old(self).contracts@, contract_address@) ==> (r is Err && r->Err_0@
                == "Contract not found"@ && final(self).contracts@ == old(self).contracts@),
            r is Ok ==> {
                let i = contract_idx(old(self).contracts@, contract_address@);
                let c0 = old(self).contracts@[i];
                let key = stored_key(old(self).key_manager.encryption_keys@, contract_address@);
                &&& contract_has(old(self).contracts@, contract_address@)
                &&& (c0.access_control.public_write || callers_have(
                    c0.access_control.allowed_callers@,
                    caller@,
                ))
                &&& key_store_has(old(self).key_manager.encryption_keys@, contract_address@)
                &&& key.len() > 0
                &&& final(self).contracts@.len() == old(self).contracts@.len()
                &&& forall|j: int|
                    0 <= j < old(self).contracts@.len() && j != i ==> final(self).contracts@[j]
                        == old(self).contracts@[j]
                &&& final(self).contracts@[i].address == c0.address
                &&& final(self).contracts@[i].owner == c0.owner
                &&& final(self).contracts@[i].encrypted_bytecode == c0.encrypted_bytecode
                &&& state_has(final(self).contracts@[i].encrypted_state@, state_key@)
                &&& {
                    let es0 = c0.encrypted_state@;
                    let es1 = final(self).contracts@[i].encrypted_state@;
                    let si = state_idx(es1, state_key@);
                    &&& es1[si].0 == state_key
                    &&& es1[si].1.ciphertext@ == spec_xor_cycle(value@, key)
                    &&& es1[si].1.encryption_key_id@ == contract_address@
                    &&& es1[si].1.authenticated
                    &&& (state_has(es0, state_key@) ==> es1.len() == es0.len() && si == state_idx(
                        es0,
                        state_key@,
                    ) && (forall|j: int| 0 <= j < es0.len() && j != si ==> es1[j] == es0[j]))
                    &&& (!state_has(es0, state_key@) ==> es1.len() == es0.len() + 1
                        && es1.drop_last() == es0 && si == es0.len())
                }
            },
    {
        let ghost cs0 = self.contracts@;
        let i = match self.find_contract(contract_address) {
            None => {
                return Err("Contract not found".to_owned());
            },
            Some(i) => i,
        };
        let allowed = self.contracts[i].access_control.public_write || {
            let needle = caller.to_owned();
            let mut w: usize = 0;
            let mut found = false;
            while w < self.contracts[i].access_control.allowed_callers.len()
                invariant
                    i < self.contracts@.len(),
                    needle@ == caller@,
                    w <= self.contracts@[i as int].access_control.allowed_callers@.len(),
                    !found ==> forall|j: int|
                        0 <= j < w
                            ==> self.contracts@[i as int].access_control.allowed_callers@[j]@
                            != caller@,
                    found ==> callers_have(
                        self.contracts@[i as int].access_control.allowed_callers@,
                        caller@,
                    ),
                decreases self.contracts@[i as int].access_control.allowed_callers@.len() - w,
            {
                if self.contracts[i].access_control.allowed_callers[w] == needle {
                    found = true;
                }
                w = w + 1;
            }
            found
        };
        if !allowed {
            return Err("Write access denied".to_owned());
        }
        let key = match self.key_manager.get_key(contract_address) {
            Ok(key) => key,
            Err(e) => {
                return Err(e);
            },
        };
        if key.len() == 0 {
            return Err("Key not found".to_owned());
        }
        let encrypted_value = self.encrypt_data(value.as_slice(), key.as_slice());
        let mut nonce: Vec<u8> = Vec::new();
        let mut z: usize = 0;
        while z < 12
            invariant
                z <= 12,
                nonce@.len() == z,
            decreases 12 - z,
        {
            nonce.push(0);
            z = z + 1;
        }
        let mut id_copy = String::new();
        id_copy.append(contract_address);
        let encrypted_data = EncryptedData {
            ciphertext: encrypted_value,
            encryption_key_id: id_copy,
            nonce,
            authenticated: true,
        };
        let mut contract = self.contracts.remove(i);
        let ghost es0 = contract.encrypted_state@;
        match Self::find_state(&contract.encrypted_state, &state_key) {
            Some(si) => {
                let _old_entry = contract.encrypted_state.remove(si);
                contract.encrypted_state.insert(si, (state_key, encrypted_data));
                proof {
                    assert(contract.encrypted_state@ =~= es0.update(
                        si as int,
                        contract.encrypted_state@[si as int],
                    ));
                    lemma_state_idx(contract.encrypted_state@, state_key@, si as int);
                }
            },
            None => {
                contract.encrypted_state.push((state_key, encrypted_data));
                proof {
                    assert(contract.encrypted_state@.drop_last() =~= es0);
                    lemma_state_idx(
                        contract.encrypted_state@,
                        contract.encrypted_state@.last().0@,
                        es0.len() as int,
                    );
                }
            },
        }
        self.contracts.insert(i, contract);
        proof {
            assert(self.contracts@ =~= cs0.update(i as int, self.contracts@[i as int]));
        }
        Ok(())
    }

    /// Reads a state entry back through a viewing key: the stored
    /// ciphertext deciphered with that key.
    pub fn read_private_state(&self, contract_address: &str, state_key: &str, viewing_key: &[u8])
        -> (r: Result<Vec<u8>, String>)
        requires
            viewing_key@.len() > 0,
        ensures
            !contract_has(self.contracts@, contract_address@) ==> (r is Err && r->Err_0@
                == "Contract not found"@),
            r is Ok ==> {
                let c = self.contracts@[contract_idx(self.contracts@, contract_address@)];
                &&& contract_has(self.contracts@, contract_address@)
                &&& state_has(c.encrypted_state@, state_key@)
                &&& r->Ok_0@ == spec_xor_cycle(
                    c.encrypted_state@[state_idx(c.encrypted_state@, state_key@)].1.ciphertext@,
                    viewing_key@,
                )
            },
    {
        let i = match self.find_contract(contract_address) {
            None => {
                return Err("Contract not found".to_owned());
            },
            Some(i) => i,
        };
        let needle = state_key.to_owned();
        let mut si: usize = 0;
        while si < self.contracts[i].encrypted_state.len()
            invariant
                i < self.contracts@.len(),
                self.contracts@[i as int].address@ == contract_address@,
                contract_idx(self.contracts@, contract_address@) == i as int,
                contract_has(self.contracts@, contract_address@),
                viewing_key@.len() > 0,
                needle@ == state_key@,
                si <= self.contracts@[i as int].encrypted_state@.len(),
                forall|j: int|
                    0 <= j < si ==> self.contracts@[i as int].encrypted_state@[j].0@ != state_key@,
            decreases self.contracts@[i as int].encrypted_state@.len() - si,
        {
            if self.contracts[i].encrypted_state[si].0 == needle {
                proof {
                    lemma_state_idx(
                        self.contracts@[i as int].encrypted_state@,
                        state_key@,
                        si as int,
                    );
                }
                if !self.key_manager.verify_viewing_key(contract_address, viewing_key) {
                    return Err("Invalid viewing key".to_owned());
                }
                let cipher = &self.contracts[i].encrypted_state[si].1.ciphertext;
                return self.decrypt_data(cipher.as_slice(), viewing_key);
            }
            si = si + 1;
        }
        Err("State key not found".to_owned())
    }

    /// The one-line summary of the VM's holdings.
    pub fn get_stats(&self) -> (r: String)
        ensures
            r@ == "Private Contract VM Stats:\nTotal Private Contracts: "@ + spec_udec(
                self.contracts@.len() as nat,
            ) + "\nEncrypted State Entries: "@ + spec_udec(self.encrypted_state@.len() as nat)
                + "\nExecution Proofs: "@ + spec_udec(self.execution_proofs@.len() as nat)
                + "\nManaged Keys: "@ + spec_udec(self.key_manager.encryption_keys@.len() as nat),
    {
        let mut s = "Private Contract VM Stats:\nTotal Private Contracts: ".to_owned();
        let a = crate::text::usize_to_string(self.contracts.len());
        s.append(a.as_str());
        s.append("\nEncrypted State Entries: ");
        let b = crate::text::usize_to_string(self.encrypted_state.len());
        s.append(b.as_str());
        s.append("\nExecution Proofs: ");
        let c = crate::text::usize_to_string(self.execution_proofs.len());
        s.append(c.as_str());
        s.append("\nManaged Keys: ");
        let d = crate::text::usize_to_string(self.key_manager.encryption_keys.len());
        s.append(d.as_str());
        s
    }
}


impl PrivateContractVM {
    /// The simulated confidential run of a function: its tagged result
    /// bytes.
    pub fn execute_private(&self, bytecode: &[u8], function_name: &str, inputs: &[Vec<u8>]) -> (r:
        Result<Vec<u8>, String>)
        ensures
            r is Ok,
            r->Ok_0@ == vstd::utf8::encode_utf8("result_of_"@ + function_name@),
    {
        let mut s = "result_of_".to_owned();
        s.append(function_name);
        let bytes = s.as_str().as_bytes();
        let mut out: Vec<u8> = Vec::new();
        let mut i: usize = 0;
        while i < bytes.len()
            invariant
                i <= bytes@.len(),
                out@ =~= bytes@.take(i as int),
            decreases bytes@.len() - i,
        {
            out.push(bytes[i]);
            i = i + 1;
            proof {
                assert(out@ =~= bytes@.take(i as int));
            }
        }
        proof {
            assert(bytes@.take(bytes@.len() as int) =~= bytes@);
        }
        Ok(out)
    }

    /// Calls a function of a confidential contract: access is checked,
    /// inputs and bytecode are deciphered, the run's result is enciphered
    /// under the contract's key and handed back authenticated, and a
    /// proof of execution is filed.
    pub fn call_private_function(
        &mut self,
        contract_address: &str,
        caller: &str,
        function_name: &str,
        encrypted_inputs: Vec<EncryptedData>,
    ) -> (r: Result<EncryptedData, String>)
        ensures
            final(self).contracts@ == old(self).contracts@,
            final(self).encrypted_state@ == old(self).encrypted_state@,
            final(self).key_manager.encryption_keys@ == old(self).key_manager.encryption_keys@,
            !contract_has(old(self).contracts@, contract_address@) ==> (r is Err && r->Err_0@
                == "Contract not found"@),
            r is Err ==> final(self).execution_proofs@ == old(self).execution_proofs@,
            r is Ok ==> {
                let c = old(self).contracts@[contract_idx(old(self).contracts@, contract_address@)];
                let key = stored_key(old(self).key_manager.encryption_keys@, contract_address@);
                &&& contract_has(old(self).contracts@, contract_address@)
                &&& (c.owner@ == caller@ || callers_have(c.access_control.allowed_callers@, caller@))
                &&& key_store_has(old(self).key_manager.encryption_keys@, contract_address@)
                &&& key.len() > 0
                &&& r->Ok_0.ciphertext@ == spec_xor_cycle(
                    vstd::utf8::encode_utf8("result_of_"@ + function_name@),
                    key,
                )
                &&& r->Ok_0.encryption_key_id@ == contract_address@
                &&& r->Ok_0.nonce@.len() == 12
                &&& r->Ok_0.authenticated
                &&& final(self).execution_proofs@.len() == old(self).execution_proofs@.len() + 1
                &&& final(self).execution_proofs@.drop_last() == old(self).execution_proofs@
                &&& final(self).execution_proofs@.last().contract_address@ == contract_address@
                &&& final(self).execution_proofs@.last().function_hash@ == "hash_"@
                    + function_name@
            },
    {
        let i = match self.find_contract(contract_address) {
            None => {
                return Err("Contract not found".to_owned());
            },
            Some(i) => i,
        };
        let allowed = self.check_access(&self.contracts[i], caller);
        if !allowed {
            return Err("Access denied".to_owned());
        }
        let _decrypted_inputs = match self.decrypt_inputs(encrypted_inputs.as_slice()) {
            Ok(d) => d,
            Err(e) => {
                return Err(e);
            },
        };
        let key = match self.key_manager.get_key(contract_address) {
            Ok(key) => key,
            Err(e) => {
                return Err(e);
            },
        };
        if key.len() == 0 {
            return Err("Key not found".to_owned());
        }
        let _bytecode = match self.decrypt_data(
            self.contracts[i].encrypted_bytecode.as_slice(),
            key.as_slice(),
        ) {
            Ok(b) => b,
            Err(e) => {
                return Err(e);
            },
        };
        let result = match self.execute_private(_bytecode.as_slice(), function_name, _decrypted_inputs.as_slice()) {
            Ok(res) => res,
            Err(e) => {
                return Err(e);
            },
        };
        let encrypted_result = self.encrypt_data(result.as_slice(), key.as_slice());
        let exec_proof = self.generate_execution_proof(
            contract_address,
            function_name,
            result.as_slice(),
        );
        let ghost proofs0 = self.execution_proofs@;
        self.execution_proofs.push(exec_proof);
        proof {
            assert(self.execution_proofs@.drop_last() =~= proofs0);
        }
        let mut nonce: Vec<u8> = Vec::new();
        let mut z: usize = 0;
        while z < 12
            invariant
                z <= 12,
                nonce@.len() == z,
            decreases 12 - z,
        {
            nonce.push(0);
            z = z + 1;
        }
        let mut id_copy = String::new();
        id_copy.append(contract_address);
        Ok(EncryptedData {
            ciphertext: encrypted_result,
            encryption_key_id: id_copy,
            nonce,
            authenticated: true,
        })
    }
}

} // verus!
