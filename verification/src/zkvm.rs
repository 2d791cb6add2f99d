//! A stack virtual machine with proof plumbing: bytecode runs over a
//! keyed byte store, and every run is pinned to a small-step interpreter
//! written as a specification.

use vstd::prelude::*;
use vstd::string::StringExecFns;
use crate::text::spec_udec;

verus! {

#[derive(Debug, Clone, Copy, PartialEq, Eq, Structural)]
pub enum ProofType {
    SNARK,
    STARK,
    Plonk,
    Groth16,
}

impl ProofType {
    pub open spec fn spec_label(&self) -> Seq<char> {
        match self {
            ProofType::SNARK => "SNARK"@,
            ProofType::STARK => "STARK"@,
            ProofType::Plonk => "Plonk"@,
            ProofType::Groth16 => "Groth16"@,
        }
    }

    /// The proof system's name.
    pub fn label(&self) -> (r: &'static str)
        ensures
            r@ == self.spec_label(),
    {
        match self {
            ProofType::SNARK => "SNARK",
            ProofType::STARK => "STARK",
            ProofType::Plonk => "Plonk",
            ProofType::Groth16 => "Groth16",
        }
    }
}

pub struct ProofSystem {
    pub proving_key: Vec<u8>,
    pub verification_key: Vec<u8>,
    pub circuit_size: usize,
    pub proof_type: ProofType,
}

impl ProofSystem {
    /// A proof system with placeholder keys of fixed sizes.
    pub fn new(proof_type: ProofType) -> (s: Self)
        ensures
            s.proving_key@ == Seq::new(1024, |i: int| 0u8),
            s.verification_key@ == Seq::new(256, |i: int| 0u8),
            s.circuit_size == 10000usize,
            s.proof_type == proof_type,
    {
        ProofSystem {
            proving_key: zero_bytes(1024),
            verification_key: zero_bytes(256),
            circuit_size: 10000,
            proof_type,
        }
    }
}

/// A vector of `n` zero bytes.
pub(crate) fn zero_bytes(n: usize) -> (r: Vec<u8>)
    ensures
        r@ == Seq::new(n as nat, |i: int| 0u8),
{
    let mut out: Vec<u8> = Vec::new();
    let mut i: usize = 0;
    while i < n
        invariant
            i <= n,
            out@.len() == i,
            forall|j: int| 0 <= j < i ==> out@[j] == 0u8,
        decreases n - i,
    {
        out.push(0);
        i = i + 1;
    }
    proof {
        assert(out@ =~= Seq::new(n as nat, |i: int| 0u8));
    }
    out
}

pub struct ExecutionStep {
    pub instruction: String,
    pub inputs: Vec<u64>,
    pub output: u64,
    pub state_change: Option<StateChange>,
}

pub struct StateChange {
    pub key: String,
    pub old_value: Vec<u8>,
    pub new_value: Vec<u8>,
}

pub struct ZkProof {
    pub proof_data: Vec<u8>,
    pub public_inputs: Vec<u64>,
    pub proof_size: usize,
    pub generation_time_ms: u64,
}

/// The view of the VM's byte store: keys and values by contents.
pub open spec fn state_view(v: Seq<(String, Vec<u8>)>) -> Seq<(Seq<char>, Seq<u8>)> {
    Seq::new(v.len(), |i: int| (v[i].0@, v[i].1@))
}

/// Whether the store view holds the key.
pub open spec fn sv_has(sv: Seq<(Seq<char>, Seq<u8>)>, k: Seq<char>) -> bool {
    exists|i: int| 0 <= i < sv.len() && sv[i].0 == k
}

/// The index of the first entry under the key.
pub open spec fn sv_idx(sv: Seq<(Seq<char>, Seq<u8>)>, k: Seq<char>) -> int
    decreases sv.len(),
{
    if sv.len() == 0 {
        0
    } else if sv[0].0 == k {
        0
    } else {
        1 + sv_idx(sv.drop_first(), k)
    }
}

proof fn lemma_sv_idx(sv: Seq<(Seq<char>, Seq<u8>)>, k: Seq<char>, i: int)
    requires
        0 <= i < sv.len(),
        sv[i].0 == k,
        forall|j: int| 0 <= j < i ==> sv[j].0 != k,
    ensures
        sv_idx(sv, k) == i,
    decreases i,
{
    if i > 0 {
        lemma_sv_idx(sv.drop_first(), k, i - 1);
    }
}

/// The value stored under the key, empty when absent.
pub open spec fn sv_get(sv: Seq<(Seq<char>, Seq<u8>)>, k: Seq<char>) -> Seq<u8> {
    if sv_has(sv, k) {
        sv[sv_idx(sv, k)].1
    } else {
        Seq::<u8>::empty()
    }
}

/// The store with `k` bound to `val`: replaced in place when present,
/// appended when absent.
pub open spec fn sv_put(sv: Seq<(Seq<char>, Seq<u8>)>, k: Seq<char>, val: Seq<u8>) -> Seq<(
    Seq<char>,
    Seq<u8>,
)> {
    if sv_has(sv, k) {
        sv.update(sv_idx(sv, k), (k, val))
    } else {
        sv.push((k, val))
    }
}

/// A 64-bit value read little-endian from the first eight bytes.
pub open spec fn spec_le_u64(b: Seq<u8>) -> u64
    recommends
        b.len() >= 8,
{
    (((((((b[7] * 256 + b[6]) * 256 + b[5]) * 256 + b[4]) * 256 + b[3]) * 256 + b[2]) * 256 + b[1])
        * 256 + b[0]) as u64
}

/// A 64-bit value written as eight little-endian bytes.
pub open spec fn spec_le_bytes(v: u64) -> Seq<u8> {
    seq![
        v as u8,
        (v >> 8) as u8,
        (v >> 16) as u8,
        (v >> 24) as u8,
        (v >> 32) as u8,
        (v >> 40) as u8,
        (v >> 48) as u8,
        (v >> 56) as u8,
    ]
}

/// The name a numeric key is stored under.
pub open spec fn spec_vm_key(n: u64) -> Seq<char> {
    "key_"@ + spec_udec(n as nat)
}

/// The value a LOAD observes: the stored bytes read little-endian when
/// long enough, zero otherwise.
pub open spec fn spec_load(sv: Seq<(Seq<char>, Seq<u8>)>, n: u64) -> u64 {
    let k = spec_vm_key(n);
    if sv_has(sv, k) && sv_get(sv, k).len() >= 8 {
        spec_le_u64(sv_get(sv, k))
    } else {
        0
    }
}

/// The small-step interpreter, run to completion from `pc`: arithmetic
/// wraps, subtraction saturates, LOAD and STORE go through the keyed
/// store, an unknown opcode is skipped, HALT stops. The first component
/// is false when some instruction underflowed the stack; the store is
/// returned as it stood when the run ended.
pub open spec fn spec_vm_run(
    bytecode: Seq<u8>,
    stack: Seq<u64>,
    sv: Seq<(Seq<char>, Seq<u8>)>,
    pc: int,
) -> (bool, Seq<u64>, Seq<(Seq<char>, Seq<u8>)>)
    decreases bytecode.len() - pc,
{
    if pc < 0 || pc >= bytecode.len() {
        (true, stack, sv)
    } else {
        let op = bytecode[pc];
        if op == 1 {
            if stack.len() < 2 {
                (false, stack, sv)
            } else {
                let b = stack.last();
                let a = stack.drop_last().last();
                spec_vm_run(
                    bytecode,
                    stack.drop_last().drop_last().push(
                        vstd::wrapping::u64_specs::wrapping_add(a, b),
                    ),
                    sv,
                    pc + 1,
                )
            }
        } else if op == 2 {
            if stack.len() < 2 {
                (false, stack, sv)
            } else {
                let b = stack.last();
                let a = stack.drop_last().last();
                spec_vm_run(
                    bytecode,
                    stack.drop_last().drop_last().push(
                        vstd::wrapping::u64_specs::wrapping_mul(a, b),
                    ),
                    sv,
                    pc + 1,
                )
            }
        } else if op == 3 {
            if stack.len() < 2 {
                (false, stack, sv)
            } else {
                let b = stack.last();
                let a = stack.drop_last().last();
                let d: u64 = if a >= b {
                    (a - b) as u64
                } else {
                    0
                };
                spec_vm_run(bytecode, stack.drop_last().drop_last().push(d), sv, pc + 1)
            }
        } else if op == 0x10 {
            if stack.len() < 1 {
                (false, stack, sv)
            } else {
                let n = stack.last();
                spec_vm_run(bytecode, stack.drop_last().push(spec_load(sv, n)), sv, pc + 1)
            }
        } else if op == 0x11 {
            if stack.len() < 2 {
                (false, stack, sv)
            } else {
                let value = stack.last();
                let n = stack.drop_last().last();
                spec_vm_run(
                    bytecode,
                    stack.drop_last().drop_last(),
                    sv_put(sv, spec_vm_key(n), spec_le_bytes(value)),
                    pc + 1,
                )
            }
        } else if op == 0xFF {
            (true, stack, sv)
        } else {
            spec_vm_run(bytecode, stack, sv, pc + 1)
        }
    }
}

pub struct ZkVM {
    pub state: Vec<(String, Vec<u8>)>,
    pub proof_system: ProofSystem,
    pub execution_trace: Vec<ExecutionStep>,
    pub total_proofs_generated: u64,
}

impl ZkVM {
    /// A fresh VM over the chosen proof system.
    pub fn new(proof_type: ProofType) -> (vm: Self)
        ensures
            vm.state@ == Seq::<(String, Vec<u8>)>::empty(),
            vm.proof_system.proof_type == proof_type,
            vm.execution_trace@ == Seq::<ExecutionStep>::empty(),
            vm.total_proofs_generated == 0,
    {
        ZkVM {
            state: Vec::new(),
            proof_system: ProofSystem::new(proof_type),
            execution_trace: Vec::new(),
            total_proofs_generated: 0,
        }
    }
}


/// The name a numeric key is stored under, as a string.
fn vm_key(n: u64) -> (r: String)
    ensures
        r@ == spec_vm_key(n),
{
    let mut s = "key_".to_owned();
    let d = crate::text::u64_to_string(n);
    s.append(d.as_str());
    s
}

fn state_find(state: &Vec<(String, Vec<u8>)>, key: &String) -> (r: Option<usize>)
    ensures
        match r {
            Some(i) => i < state@.len() && state@[i as int].0@ == key@ && sv_has(
                state_view(state@),
                key@,
            ) && sv_idx(state_view(state@), key@) == i,
            None => !sv_has(state_view(state@), key@),
        },
{
    let mut i: usize = 0;
    while i < state.len()
        invariant
            i <= state@.len(),
            forall|j: int| 0 <= j < i ==> state@[j].0@ != key@,
        decreases state@.len() - i,
    {
        if state[i].0 == *key {
            proof {
                assert(state_view(state@)[i as int].0 == key@);
                lemma_sv_idx(state_view(state@), key@, i as int);
            }
            return Some(i);
        }
        i = i + 1;
    }
    proof {
        assert forall|j: int| 0 <= j < state_view(state@).len() implies state_view(state@)[j].0
            != key@ by {
            assert(state_view(state@)[j].0 == state@[j].0@);
        }
    }
    None
}

fn state_put(state: &mut Vec<(String, Vec<u8>)>, key: String, val: Vec<u8>)
    ensures
        state_view(final(state)@) == sv_put(state_view(old(state)@), key@, val@),
{
    let ghost sv0 = state_view(state@);
    match state_find(state, &key) {
        Some(i) => {
            let _old_entry = state.remove(i);
            state.insert(i, (key, val));
            proof {
                assert(state_view(state@) =~= sv0.update(i as int, (key@, val@)));
            }
        },
        None => {
            state.push((key, val));
            proof {
                assert(state_view(state@) =~= sv0.push((key@, val@)));
            }
        },
    }
}

/// The first eight bytes of `b` read little-endian.
fn le_u64(b: &Vec<u8>) -> (r: u64)
    requires
        b@.len() >= 8,
    ensures
        r == spec_le_u64(b@),
{
    let v7 = b[7] as u64;
    let v6 = v7 * 256 + b[6] as u64;
    let v5 = v6 * 256 + b[5] as u64;
    let v4 = v5 * 256 + b[4] as u64;
    let v3 = v4 * 256 + b[3] as u64;
    let v2 = v3 * 256 + b[2] as u64;
    let v1 = v2 * 256 + b[1] as u64;
    let v0 = v1 * 256 + b[0] as u64;
    v0
}

/// A value written as eight little-endian bytes.
fn le_bytes(v: u64) -> (r: Vec<u8>)
    ensures
        r@ == spec_le_bytes(v),
{
    let mut out: Vec<u8> = Vec::new();
    out.push(v as u8);
    out.push((v >> 8) as u8);
    out.push((v >> 16) as u8);
    out.push((v >> 24) as u8);
    out.push((v >> 32) as u8);
    out.push((v >> 40) as u8);
    out.push((v >> 48) as u8);
    out.push((v >> 56) as u8);
    proof {
        assert(out@ =~= spec_le_bytes(v));
    }
    out
}

impl ZkVM {
    /// Runs bytecode over the VM's store, starting from the given input
    /// stack; the outcome and the store afterwards are exactly those of
    /// the small-step interpreter.
    pub fn execute(&mut self, bytecode: &[u8], inputs: &[u64]) -> (r: Result<u64, String>)
        ensures
            final(self).proof_system == old(self).proof_system,
            final(self).execution_trace@ == old(self).execution_trace@,
            final(self).total_proofs_generated == old(self).total_proofs_generated,
            ({
                let res = spec_vm_run(bytecode@, inputs@, state_view(old(self).state@), 0);
                &&& state_view(final(self).state@) == res.2
                &&& (!res.0 ==> r is Err && r->Err_0@ == "Stack underflow"@)
                &&& ((res.0 && res.1.len() == 0) ==> r is Err && r->Err_0@
                    == "No result on stack"@)
                &&& ((res.0 && res.1.len() > 0) ==> r is Ok && r->Ok_0 == res.1.last())
            }),
    {
        let ghost sv0 = state_view(self.state@);
        let ghost res = spec_vm_run(bytecode@, inputs@, sv0, 0);
        let mut stack: Vec<u64> = Vec::new();
        let mut i: usize = 0;
        while i < inputs.len()
            invariant
                i <= inputs@.len(),
                stack@ =~= inputs@.take(i as int),
            decreases inputs@.len() - i,
        {
            stack.push(inputs[i]);
            i = i + 1;
            proof {
                assert(stack@ =~= inputs@.take(i as int));
            }
        }
        proof {
            assert(inputs@.take(inputs@.len() as int) =~= inputs@);
        }
        let mut pc: usize = 0;
        let mut running = true;
        while running && pc < bytecode.len()
            invariant
                pc <= bytecode@.len(),
                sv0 == state_view(old(self).state@),
                res == spec_vm_run(bytecode@, inputs@, sv0, 0),
                running ==> res == spec_vm_run(bytecode@, stack@, state_view(self.state@), pc as int),
                !running ==> res == (true, stack@, state_view(self.state@)),
                self.proof_system == old(self).proof_system,
                self.execution_trace@ == old(self).execution_trace@,
                self.total_proofs_generated == old(self).total_proofs_generated,
            decreases bytecode@.len() - pc,
        {
            let ghost stack_b = stack@;
            let ghost sv_b = state_view(self.state@);
            let opcode = bytecode[pc];
            if opcode == 0x01 {
                let b = match stack.pop() {
                    Some(x) => x,
                    None => {
                        proof {
                            assert(res == (false, stack_b, sv_b));
                        }
                        return Err("Stack underflow".to_owned());
                    },
                };
                let a = match stack.pop() {
                    Some(x) => x,
                    None => {
                        proof {
                            assert(res == (false, stack_b, sv_b));
                        }
                        return Err("Stack underflow".to_owned());
                    },
                };
                stack.push(a.wrapping_add(b));
                proof {
                    assert(stack@ =~= stack_b.drop_last().drop_last().push(
                        vstd::wrapping::u64_specs::wrapping_add(
                            stack_b.drop_last().last(),
                            stack_b.last(),
                        ),
                    ));
                }
            } else if opcode == 0x02 {
                let b = match stack.pop() {
                    Some(x) => x,
                    None => {
                        proof {
                            assert(res == (false, stack_b, sv_b));
                        }
                        return Err("Stack underflow".to_owned());
                    },
                };
                let a = match stack.pop() {
                    Some(x) => x,
                    None => {
                        proof {
                            assert(res == (false, stack_b, sv_b));
                        }
                        return Err("Stack underflow".to_owned());
                    },
                };
                stack.push(a.wrapping_mul(b));
                proof {
                    assert(stack@ =~= stack_b.drop_last().drop_last().push(
                        vstd::wrapping::u64_specs::wrapping_mul(
                            stack_b.drop_last().last(),
                            stack_b.last(),
                        ),
                    ));
                }
            } else if opcode == 0x03 {
                let b = match stack.pop() {
                    Some(x) => x,
                    None => {
                        proof {
                            assert(res == (false, stack_b, sv_b));
                        }
                        return Err("Stack underflow".to_owned());
                    },
                };
                let a = match stack.pop() {
                    Some(x) => x,
                    None => {
                        proof {
                            assert(res == (false, stack_b, sv_b));
                        }
                        return Err("Stack underflow".to_owned());
                    },
                };
                let d = if a >= b {
                    a - b
                } else {
                    0
                };
                stack.push(d);
                proof {
                    assert(stack@ =~= stack_b.drop_last().drop_last().push(stack@.last()));
                }
            } else if opcode == 0x10 {
                let n = match stack.pop() {
                    Some(x) => x,
                    None => {
                        proof {
                            assert(res == (false, stack_b, sv_b));
                        }
                        return Err("Stack underflow".to_owned());
                    },
                };
                let key = vm_key(n);
                let value = match state_find(&self.state, &key) {
                    Some(idx) => {
                        if self.state[idx].1.len() >= 8 {
                            le_u64(&self.state[idx].1)
                        } else {
                            0
                        }
                    },
                    None => 0,
                };
                stack.push(value);
                proof {
                    assert(sv_get(sv_b, spec_vm_key(n)) == state_view(self.state@)[sv_idx(
                        state_view(self.state@),
                        key@,
                    )].1 || !sv_has(sv_b, spec_vm_key(n)));
                    assert(value == spec_load(sv_b, n));
                    assert(stack@ =~= stack_b.drop_last().push(spec_load(sv_b, n)));
                }
            } else if opcode == 0x11 {
                let value = match stack.pop() {
                    Some(x) => x,
                    None => {
                        proof {
                            assert(res == (false, stack_b, sv_b));
                        }
                        return Err("Stack underflow".to_owned());
                    },
                };
                let n = match stack.pop() {
                    Some(x) => x,
                    None => {
                        proof {
                            assert(res == (false, stack_b, sv_b));
                        }
                        return Err("Stack underflow".to_owned());
                    },
                };
                let key = vm_key(n);
                let bytes = le_bytes(value);
                state_put(&mut self.state, key, bytes);
                proof {
                    assert(stack@ =~= stack_b.drop_last().drop_last());
                    assert(state_view(self.state@) == sv_put(
                        sv_b,
                        spec_vm_key(n),
                        spec_le_bytes(value),
                    ));
                }
            } else if opcode == 0xFF {
                // HALT: the run is over; jump the counter past the end.
                proof {
                    assert(res == (true, stack@, state_view(self.state@)));
                }
                pc = bytecode.len();
                continue;
            }
            pc = pc + 1;
        }
        proof {
            assert(res == (true, stack@, state_view(self.state@)));
        }
        match stack.pop() {
            Some(result) => Ok(result),
            None => Err("No result on stack".to_owned()),
        }
    }
}


/// The combined size of a block's transactions.
pub open spec fn spec_tx_sizes(txs: Seq<Vec<u8>>) -> int
    decreases txs.len(),
{
    if txs.len() == 0 {
        0
    } else {
        spec_tx_sizes(txs.drop_last()) + txs.last()@.len()
    }
}

proof fn lemma_tx_sizes_nonneg(txs: Seq<Vec<u8>>)
    ensures
        spec_tx_sizes(txs) >= 0,
    decreases txs.len(),
{
    if txs.len() > 0 {
        lemma_tx_sizes_nonneg(txs.drop_last());
    }
}

pub struct CompressedBlock {
    pub proof: Vec<u8>,
    pub state_root: String,
    pub tx_count: usize,
    pub original_size: usize,
    pub compressed_size: usize,
}

impl ZkVM {
    /// Replaces the trace with the single summary step of a run.
    fn record_execution_trace(&mut self, bytecode: &[u8], inputs: &[u64], result: u64)
        ensures
            final(self).state@ == old(self).state@,
            final(self).proof_system == old(self).proof_system,
            final(self).total_proofs_generated == old(self).total_proofs_generated,
            final(self).execution_trace@.len() == 1,
            final(self).execution_trace@[0].instruction@ == "START"@,
            final(self).execution_trace@[0].inputs@ == inputs@,
            final(self).execution_trace@[0].output == result,
            final(self).execution_trace@[0].state_change is None,
    {
        self.execution_trace.clear();
        let mut step_inputs: Vec<u64> = Vec::new();
        let mut i: usize = 0;
        while i < inputs.len()
            invariant
                i <= inputs@.len(),
                step_inputs@ =~= inputs@.take(i as int),
            decreases inputs@.len() - i,
        {
            step_inputs.push(inputs[i]);
            i = i + 1;
            proof {
                assert(step_inputs@ =~= inputs@.take(i as int));
            }
        }
        proof {
            assert(inputs@.take(inputs@.len() as int) =~= inputs@);
        }
        self.execution_trace.push(ExecutionStep {
            instruction: "START".to_owned(),
            inputs: step_inputs,
            output: result,
            state_change: None,
        });
    }

    /// A placeholder proof over the trace's final output.
    fn generate_proof(&self, trace: &[ExecutionStep]) -> (r: Result<ZkProof, String>)
        requires
            trace@.len() > 0,
        ensures
            r is Ok,
            r->Ok_0.proof_data@ == Seq::new(256, |i: int| 0u8),
            r->Ok_0.public_inputs@ == seq![trace@.last().output],
            r->Ok_0.proof_size == 256usize,
            r->Ok_0.generation_time_ms == 50u64,
    {
        let proof_data = zero_bytes(256);
        let mut public_inputs: Vec<u64> = Vec::new();
        public_inputs.push(trace[trace.len() - 1].output);
        proof {
            assert(public_inputs@ =~= seq![trace@.last().output]);
        }
        Ok(ZkProof { proof_data, public_inputs, proof_size: 256, generation_time_ms: 50 })
    }

    /// Runs bytecode and wraps the result in a proof whose public input
    /// is exactly the run's output; the proof counter advances.
    pub fn execute_with_proof(&mut self, bytecode: &[u8], inputs: Vec<u64>) -> (r: Result<
        ZkProof,
        String,
    >)
        ensures
            final(self).proof_system == old(self).proof_system,
            ({
                let res = spec_vm_run(bytecode@, inputs@, state_view(old(self).state@), 0);
                &&& state_view(final(self).state@) == res.2
                &&& (!res.0 ==> r is Err && r->Err_0@ == "Stack underflow"@)
                &&& ((res.0 && res.1.len() == 0) ==> r is Err && r->Err_0@
                    == "No result on stack"@)
                &&& ((res.0 && res.1.len() > 0) ==> {
                    &&& r is Ok
                    &&& r->Ok_0.public_inputs@ == seq![res.1.last()]
                    &&& r->Ok_0.proof_data@ == Seq::new(256, |i: int| 0u8)
                    &&& r->Ok_0.proof_size == 256usize
                    &&& final(self).total_proofs_generated == crate::governance::sat_add(
                        old(self).total_proofs_generated,
                        1,
                    )
                    &&& final(self).execution_trace@.len() == 1
                    &&& final(self).execution_trace@[0].output == res.1.last()
                })
                &&& (r is Err ==> final(self).execution_trace@ == old(self).execution_trace@
                    && final(self).total_proofs_generated == old(self).total_proofs_generated)
            }),
    {
        let result = match self.execute(bytecode, inputs.as_slice()) {
            Ok(result) => result,
            Err(e) => {
                return Err(e);
            },
        };
        self.record_execution_trace(bytecode, inputs.as_slice(), result);
        let proof = match self.generate_proof(self.execution_trace.as_slice()) {
            Ok(p) => p,
            Err(e) => {
                return Err(e);
            },
        };
        self.total_proofs_generated = if self.total_proofs_generated < u64::MAX {
            self.total_proofs_generated + 1
        } else {
            self.total_proofs_generated
        };
        Ok(proof)
    }

    /// A proof is accepted exactly when its public inputs read back the
    /// ones presented.
    pub fn verify_proof(&mut self, proof: &ZkProof, public_inputs: &[u64]) -> (r: bool)
        ensures
            *final(self) == *old(self),
            r == (proof.public_inputs@ == public_inputs@),
    {
        if proof.public_inputs.len() != public_inputs.len() {
            proof {
                assert(proof.public_inputs@.len() != public_inputs@.len());
            }
            return false;
        }
        let mut i: usize = 0;
        while i < public_inputs.len()
            invariant
                i <= public_inputs@.len(),
                proof.public_inputs@.len() == public_inputs@.len(),
                forall|j: int| 0 <= j < i ==> proof.public_inputs@[j] == public_inputs@[j],
            decreases public_inputs@.len() - i,
        {
            if proof.public_inputs[i] != public_inputs[i] {
                return false;
            }
            i = i + 1;
        }
        proof {
            assert(proof.public_inputs@ =~= public_inputs@);
        }
        true
    }

    /// Compresses a block down to a fixed-size proof and a state root;
    /// the recorded original size is the transactions' combined size,
    /// capped at the machine word.
    pub fn compress_block(&self, transactions: Vec<Vec<u8>>) -> (r: CompressedBlock)
        ensures
            r.proof@ == Seq::new(256, |i: int| 0u8),
            r.state_root@ == "root_hash_123"@,
            r.tx_count == transactions@.len(),
            r.original_size as int == vstd::math::min(
                spec_tx_sizes(transactions@),
                usize::MAX as int,
            ),
            r.compressed_size == 256usize,
    {
        let mut original_size: usize = 0;
        let mut i: usize = 0;
        while i < transactions.len()
            invariant
                i <= transactions@.len(),
                original_size as int == vstd::math::min(
                    spec_tx_sizes(transactions@.take(i as int)),
                    usize::MAX as int,
                ),
            decreases transactions@.len() - i,
        {
            proof {
                assert(transactions@.take(i as int + 1).drop_last() =~= transactions@.take(
                    i as int,
                ));
                assert(transactions@.take(i as int + 1).last() == transactions@[i as int]);
                lemma_tx_sizes_nonneg(transactions@.take(i as int));
            }
            let l = transactions[i].len();
            original_size = if original_size <= usize::MAX - l {
                original_size + l
            } else {
                usize::MAX
            };
            i = i + 1;
        }
        proof {
            assert(transactions@.take(transactions@.len() as int) =~= transactions@);
        }
        CompressedBlock {
            proof: zero_bytes(256),
            state_root: "root_hash_123".to_owned(),
            tx_count: transactions.len(),
            original_size,
            compressed_size: 256,
        }
    }

    /// The one-line summary of the VM's holdings.
    pub fn get_stats(&self) -> (r: String)
        ensures
            r@ == "zkVM Stats:\nProof System: "@ + self.proof_system.proof_type.spec_label()
                + "\nTotal Proofs: "@ + spec_udec(self.total_proofs_generated as nat)
                + "\nExecution Steps: "@ + spec_udec(self.execution_trace@.len() as nat)
                + "\nState Size: "@ + spec_udec(self.state@.len() as nat) + " entries"@,
    {
        let mut s = "zkVM Stats:\nProof System: ".to_owned();
        s.append(self.proof_system.proof_type.label());
        s.append("\nTotal Proofs: ");
        let a = crate::text::u64_to_string(self.total_proofs_generated);
        s.append(a.as_str());
        s.append("\nExecution Steps: ");
        let b = crate::text::usize_to_string(self.execution_trace.len());
        s.append(b.as_str());
        s.append("\nState Size: ");
        let c = crate::text::usize_to_string(self.state.len());
        s.append(c.as_str());
        s.append(" entries");
        s
    }
}

} // verus!
