//! Rollup management: deployment, transaction and batch submission,
//! fraud and validity proofs, and finalization under a challenge period.

use vstd::prelude::*;
use vstd::string::StringExecFns;
use crate::governance::sat_add;
use crate::text::spec_udec;

verus! {

#[derive(Debug, Clone, Copy, PartialEq, Eq, Structural)]
pub enum RollupType {
    Optimistic,
    ZkRollup,
    Sovereign,
}

pub struct RollupTransaction {
    pub tx_hash: String,
    pub from: String,
    pub to: String,
    pub value: u64,
    pub data: Vec<u8>,
    pub batch_id: u64,
}

pub struct RollupBatch {
    pub batch_id: u64,
    pub tx_count: usize,
    pub state_root: String,
    pub proof: Option<Vec<u8>>,
    pub timestamp: u64,
    pub finalized: bool,
    pub challenge_period_end: u64,
}

pub struct Rollup {
    pub rollup_id: String,
    pub rollup_type: RollupType,
    pub name: String,
    pub operator: String,
    pub state_root: String,
    pub transactions: Vec<RollupTransaction>,
    pub batches: Vec<RollupBatch>,
    pub active: bool,
}

/// Whether some rollup carries the id.
pub open spec fn rollup_has(rs: Seq<Rollup>, id: Seq<char>) -> bool {
    exists|i: int| 0 <= i < rs.len() && rs[i].rollup_id@ == id
}

/// The index of the first rollup carrying the id.
pub open spec fn rollup_idx(rs: Seq<Rollup>, id: Seq<char>) -> int
    decreases rs.len(),
{
    if rs.len() == 0 {
        0
    } else if rs[0].rollup_id@ == id {
        0
    } else {
        1 + rollup_idx(rs.drop_first(), id)
    }
}

proof fn lemma_rollup_idx(rs: Seq<Rollup>, id: Seq<char>, i: int)
    requires
        0 <= i < rs.len(),
        rs[i].rollup_id@ == id,
        forall|j: int| 0 <= j < i ==> rs[j].rollup_id@ != id,
    ensures
        rollup_idx(rs, id) == i,
    decreases i,
{
    if i > 0 {
        lemma_rollup_idx(rs.drop_first(), id, i - 1);
    }
}

/// Whether some batch carries the id.
pub open spec fn batch_has(bs: Seq<RollupBatch>, id: u64) -> bool {
    exists|i: int| 0 <= i < bs.len() && bs[i].batch_id == id
}

/// The index of the first batch carrying the id.
pub open spec fn batch_idx(bs: Seq<RollupBatch>, id: u64) -> int
    decreases bs.len(),
{
    if bs.len() == 0 {
        0
    } else if bs[0].batch_id == id {
        0
    } else {
        1 + batch_idx(bs.drop_first(), id)
    }
}

proof fn lemma_batch_idx(bs: Seq<RollupBatch>, id: u64, i: int)
    requires
        0 <= i < bs.len(),
        bs[i].batch_id == id,
        forall|j: int| 0 <= j < i ==> bs[j].batch_id != id,
    ensures
        batch_idx(bs, id) == i,
    decreases i,
{
    if i > 0 {
        lemma_batch_idx(bs.drop_first(), id, i - 1);
    }
}

pub struct RollupManager {
    pub rollups: Vec<Rollup>,
    pub total_rollups: u64,
    pub total_transactions: u64,
}

impl RollupManager {
    /// No rollups deployed yet.
    pub fn new() -> (m: Self)
        ensures
            m.rollups@ == Seq::<Rollup>::empty(),
            m.total_rollups == 0,
            m.total_transactions == 0,
    {
        RollupManager { rollups: Vec::new(), total_rollups: 0, total_transactions: 0 }
    }

    /// Deploys a fresh, active rollup under the next sequential id, at
    /// the genesis state root, and returns the id.
    pub fn deploy_rollup(&mut self, name: String, rollup_type: RollupType, operator: String) -> (r:
        String)
        ensures
            final(self).total_rollups == sat_add(old(self).total_rollups, 1),
            final(self).total_transactions == old(self).total_transactions,
            r@ == "rollup_"@ + spec_udec(sat_add(old(self).total_rollups, 1) as nat),
            final(self).rollups@.len() == old(self).rollups@.len() + 1,
            final(self).rollups@.drop_last() == old(self).rollups@,
            final(self).rollups@.last().rollup_id@ == r@,
            final(self).rollups@.last().rollup_type == rollup_type,
            final(self).rollups@.last().name == name,
            final(self).rollups@.last().operator == operator,
            final(self).rollups@.last().state_root@ == "genesis_root"@,
            final(self).rollups@.last().transactions@ == Seq::<RollupTransaction>::empty(),
            final(self).rollups@.last().batches@ == Seq::<RollupBatch>::empty(),
            final(self).rollups@.last().active,
    {
        let next = if self.total_rollups < u64::MAX {
            self.total_rollups + 1
        } else {
            self.total_rollups
        };
        let mut rollup_id = "rollup_".to_owned();
        let n = crate::text::u64_to_string(next);
        rollup_id.append(n.as_str());
        let id2 = rollup_id.clone();
        let rollup = Rollup {
            rollup_id: id2,
            rollup_type,
            name,
            operator,
            state_root: "genesis_root".to_owned(),
            transactions: Vec::new(),
            batches: Vec::new(),
            active: true,
        };
        let ghost rs0 = self.rollups@;
        self.rollups.push(rollup);
        self.total_rollups = next;
        proof {
            assert(self.rollups@.drop_last() =~= rs0);
        }
        rollup_id
    }

    fn find(&self, rollup_id: &str) -> (r: Option<usize>)
        ensures
            match r {
                Some(i) => i < self.rollups@.len() && self.rollups@[i as int].rollup_id@
                    == rollup_id@ && rollup_idx(self.rollups@, rollup_id@) == i,
                None => !rollup_has(self.rollups@, rollup_id@),
            },
    {
        let needle = rollup_id.to_owned();
        let mut i: usize = 0;
        while i < self.rollups.len()
            invariant
                i <= self.rollups@.len(),
                needle@ == rollup_id@,
                forall|j: int| 0 <= j < i ==> self.rollups@[j].rollup_id@ != rollup_id@,
            decreases self.rollups@.len() - i,
        {
            if self.rollups[i].rollup_id == needle {
                proof {
                    lemma_rollup_idx(self.rollups@, rollup_id@, i as int);
                }
                return Some(i);
            }
            i = i + 1;
        }
        None
    }

    /// Appends a transaction to an active rollup; unknown or inactive
    /// rollups refuse it.
    pub fn submit_transaction(&mut self, rollup_id: &str, tx: RollupTransaction) -> (r: Result<
        (),
        String,
    >)
        ensures
            final(self).total_rollups == old(self).total_rollups,
            !rollup_has(old(self).rollups@, rollup_id@) ==> (r is Err && r->Err_0@
                == "Rollup not found"@),
            r is Ok <==> (rollup_has(old(self).rollups@, rollup_id@) && old(self).rollups@[
                rollup_idx(old(self).rollups@, rollup_id@)
            ].active),
            (rollup_has(old(self).rollups@, rollup_id@) && !old(self).rollups@[rollup_idx(
                old(self).rollups@,
                rollup_id@,
            )].active) ==> (r is Err && r->Err_0@ == "Rollup not active"@),
            r is Err ==> final(self).rollups@ == old(self).rollups@
                && final(self).total_transactions == old(self).total_transactions,
            r is Ok ==> {
                let i = rollup_idx(old(self).rollups@, rollup_id@);
                let r0 = old(self).rollups@[i];
                &&& final(self).total_transactions == sat_add(old(self).total_transactions, 1)
                &&& final(self).rollups@.len() == old(self).rollups@.len()
                &&& forall|j: int|
                    0 <= j < old(self).rollups@.len() && j != i ==> final(self).rollups@[j] == old(
                        self,
                    ).rollups@[j]
                &&& final(self).rollups@[i].transactions@ == r0.transactions@.push(tx)
                &&& final(self).rollups@[i].rollup_id == r0.rollup_id
                &&& final(self).rollups@[i].rollup_type == r0.rollup_type
                &&& final(self).rollups@[i].name == r0.name
                &&& final(self).rollups@[i].operator == r0.operator
                &&& final(self).rollups@[i].state_root == r0.state_root
                &&& final(self).rollups@[i].batches@ == r0.batches@
                &&& final(self).rollups@[i].active == r0.active
            },
    {
        let ghost rs0 = self.rollups@;
        match self.find(rollup_id) {
            None => Err("Rollup not found".to_owned()),
            Some(i) => {
                if !self.rollups[i].active {
                    return Err("Rollup not active".to_owned());
                }
                let mut rollup = self.rollups.remove(i);
                let ghost txs0 = rollup.transactions@;
                rollup.transactions.push(tx);
                self.rollups.insert(i, rollup);
                self.total_transactions = if self.total_transactions < u64::MAX {
                    self.total_transactions + 1
                } else {
                    self.total_transactions
                };
                proof {
                    assert(self.rollups@ =~= rs0.update(i as int, self.rollups@[i as int]));
                    assert(self.rollups@[i as int].transactions@ =~= txs0.push(tx));
                }
                Ok(())
            },
        }
    }

    /// Creates the next batch of an existing rollup from the given
    /// hashes, advancing the rollup's state root to the batch's; the
    /// batch starts unfinalized, with a week-long challenge period.
    pub fn create_batch(&mut self, rollup_id: &str, tx_hashes: Vec<String>, new_state_root: String)
        -> (r: Result<u64, String>)
        ensures
            final(self).total_rollups == old(self).total_rollups,
            final(self).total_transactions == old(self).total_transactions,
            r is Ok <==> rollup_has(old(self).rollups@, rollup_id@),
            r is Err ==> final(self).rollups@ == old(self).rollups@ && r->Err_0@
                == "Rollup not found"@,
            r is Ok ==> {
                let i = rollup_idx(old(self).rollups@, rollup_id@);
                let r0 = old(self).rollups@[i];
                let b = final(self).rollups@[i].batches@.last();
                &&& r->Ok_0 == sat_add(r0.batches@.len() as u64, 1)
                &&& final(self).rollups@.len() == old(self).rollups@.len()
                &&& forall|j: int|
                    0 <= j < old(self).rollups@.len() && j != i ==> final(self).rollups@[j] == old(
                        self,
                    ).rollups@[j]
                &&& final(self).rollups@[i].batches@.len() == r0.batches@.len() + 1
                &&& final(self).rollups@[i].batches@.drop_last() == r0.batches@
                &&& b.batch_id == r->Ok_0
                &&& b.tx_count == tx_hashes@.len()
                &&& b.state_root == new_state_root
                &&& b.proof is None
                &&& !b.finalized
                &&& final(self).rollups@[i].state_root@ == new_state_root@
                &&& final(self).rollups@[i].transactions@ == r0.transactions@
                &&& final(self).rollups@[i].rollup_id == r0.rollup_id
                &&& final(self).rollups@[i].active == r0.active
            },
    {
        let ghost rs0 = self.rollups@;
        match self.find(rollup_id) {
            None => Err("Rollup not found".to_owned()),
            Some(i) => {
                let mut rollup = self.rollups.remove(i);
                let ghost bs0 = rollup.batches@;
                let bl = rollup.batches.len() as u64;
                let batch_id = if bl < u64::MAX {
                    bl + 1
                } else {
                    bl
                };
                let now = crate::clock::now_unix_secs();
                let challenge_end = if now <= u64::MAX - 604800 {
                    now + 604800
                } else {
                    u64::MAX
                };
                let root_copy = new_state_root.clone();
                let batch = RollupBatch {
                    batch_id,
                    tx_count: tx_hashes.len(),
                    state_root: new_state_root,
                    proof: None,
                    timestamp: now,
                    finalized: false,
                    challenge_period_end: challenge_end,
                };
                rollup.batches.push(batch);
                rollup.state_root = root_copy;
                self.rollups.insert(i, rollup);
                proof {
                    assert(self.rollups@ =~= rs0.update(i as int, self.rollups@[i as int]));
                    assert(self.rollups@[i as int].batches@.drop_last() =~= bs0);
                }
                Ok(batch_id)
            },
        }
    }

    /// Reviews a fraud proof against an unfinalized batch of an
    /// optimistic rollup; a non-empty proof is accepted.
    pub fn submit_fraud_proof(&mut self, rollup_id: &str, batch_id: u64, fraud_proof: Vec<u8>) -> (r:
        Result<(), String>)
        ensures
            final(self).rollups@ == old(self).rollups@,
            final(self).total_rollups == old(self).total_rollups,
            final(self).total_transactions == old(self).total_transactions,
            !rollup_has(old(self).rollups@, rollup_id@) ==> (r is Err && r->Err_0@
                == "Rollup not found"@),
            rollup_has(old(self).rollups@, rollup_id@) ==> {
                let rol = old(self).rollups@[rollup_idx(old(self).rollups@, rollup_id@)];
                if rol.rollup_type != RollupType::Optimistic {
                    r is Err && r->Err_0@ == "Not an optimistic rollup"@
                } else if !batch_has(rol.batches@, batch_id) {
                    r is Err && r->Err_0@ == "Batch not found"@
                } else if rol.batches@[batch_idx(rol.batches@, batch_id)].finalized {
                    r is Err && r->Err_0@ == "Batch already finalized"@
                } else if fraud_proof@.len() > 0 {
                    r is Ok
                } else {
                    r is Err && r->Err_0@ == "Invalid fraud proof"@
                }
            },
    {
        let i = match self.find(rollup_id) {
            None => {
                return Err("Rollup not found".to_owned());
            },
            Some(i) => i,
        };
        if !matches!(self.rollups[i].rollup_type, RollupType::Optimistic) {
            return Err("Not an optimistic rollup".to_owned());
        }
        let bi = match Self::find_batch(&self.rollups[i].batches, batch_id) {
            None => {
                return Err("Batch not found".to_owned());
            },
            Some(bi) => bi,
        };
        if self.rollups[i].batches[bi].finalized {
            return Err("Batch already finalized".to_owned());
        }
        if self.verify_fraud_proof(fraud_proof.as_slice()) {
            Ok(())
        } else {
            Err("Invalid fraud proof".to_owned())
        }
    }

    fn find_batch(batches: &Vec<RollupBatch>, batch_id: u64) -> (r: Option<usize>)
        ensures
            match r {
                Some(i) => i < batches@.len() && batches@[i as int].batch_id == batch_id
                    && batch_idx(batches@, batch_id) == i,
                None => !batch_has(batches@, batch_id),
            },
    {
        let mut i: usize = 0;
        while i < batches.len()
            invariant
                i <= batches@.len(),
                forall|j: int| 0 <= j < i ==> batches@[j].batch_id != batch_id,
            decreases batches@.len() - i,
        {
            if batches[i].batch_id == batch_id {
                proof {
                    lemma_batch_idx(batches@, batch_id, i as int);
                }
                return Some(i);
            }
            i = i + 1;
        }
        None
    }

    /// Reviews a validity proof against a batch of a ZK rollup: a
    /// non-empty proof finalizes the batch and is stored with it.
    pub fn submit_validity_proof(
        &mut self,
        rollup_id: &str,
        batch_id: u64,
        validity_proof: Vec<u8>,
    ) -> (r: Result<(), String>)
        ensures
            final(self).total_rollups == old(self).total_rollups,
            final(self).total_transactions == old(self).total_transactions,
            r is Err ==> final(self).rollups@ == old(self).rollups@,
            !rollup_has(old(self).rollups@, rollup_id@) ==> (r is Err && r->Err_0@
                == "Rollup not found"@),
            rollup_has(old(self).rollups@, rollup_id@) ==> {
                let i = rollup_idx(old(self).rollups@, rollup_id@);
                let rol = old(self).rollups@[i];
                if rol.rollup_type != RollupType::ZkRollup {
                    r is Err && r->Err_0@ == "Not a ZK rollup"@
                } else if !batch_has(rol.batches@, batch_id) {
                    r is Err && r->Err_0@ == "Batch not found"@
                } else if validity_proof@.len() == 0 {
                    r is Err && r->Err_0@ == "Invalid validity proof"@
                } else {
                    let bi = batch_idx(rol.batches@, batch_id);
                    let b0 = rol.batches@[bi];
                    &&& r is Ok
                    &&& final(self).rollups@.len() == old(self).rollups@.len()
                    &&& forall|j: int|
                        0 <= j < old(self).rollups@.len() && j != i ==> final(self).rollups@[j]
                            == old(self).rollups@[j]
                    &&& final(self).rollups@[i].batches@.len() == rol.batches@.len()
                    &&& forall|j: int|
                        0 <= j < rol.batches@.len() && j != bi
                            ==> final(self).rollups@[i].batches@[j] == rol.batches@[j]
                    &&& final(self).rollups@[i].batches@[bi].finalized
                    &&& final(self).rollups@[i].batches@[bi].proof is Some
                    &&& final(self).rollups@[i].batches@[bi].proof->0@ == validity_proof@
                    &&& final(self).rollups@[i].batches@[bi].batch_id == b0.batch_id
                    &&& final(self).rollups@[i].transactions@ == rol.transactions@
                    &&& final(self).rollups@[i].rollup_id == rol.rollup_id
                    &&& final(self).rollups@[i].state_root == rol.state_root
                    &&& final(self).rollups@[i].active == rol.active
                }
            },
    {
        let ghost rs0 = self.rollups@;
        let i = match self.find(rollup_id) {
            None => {
                return Err("Rollup not found".to_owned());
            },
            Some(i) => i,
        };
        if !matches!(self.rollups[i].rollup_type, RollupType::ZkRollup) {
            return Err("Not a ZK rollup".to_owned());
        }
        let bi = match Self::find_batch(&self.rollups[i].batches, batch_id) {
            None => {
                return Err("Batch not found".to_owned());
            },
            Some(bi) => bi,
        };
        if self.verify_validity_proof(validity_proof.as_slice()) {
            let mut rollup = self.rollups.remove(i);
            let ghost bs0 = rollup.batches@;
            let mut batch = rollup.batches.remove(bi);
            batch.proof = Some(validity_proof);
            batch.finalized = true;
            rollup.batches.insert(bi, batch);
            self.rollups.insert(i, rollup);
            proof {
                assert(self.rollups@ =~= rs0.update(i as int, self.rollups@[i as int]));
                assert(self.rollups@[i as int].batches@ =~= bs0.update(
                    bi as int,
                    self.rollups@[i as int].batches@[bi as int],
                ));
            }
            Ok(())
        } else {
            Err("Invalid validity proof".to_owned())
        }
    }

    /// Finalizes a batch: a sovereign batch at once, a ZK batch once it
    /// carries a proof, an optimistic batch only after its challenge
    /// period has passed on the wall clock.
    pub fn finalize_batch(&mut self, rollup_id: &str, batch_id: u64) -> (r: Result<(), String>)
        ensures
            final(self).total_rollups == old(self).total_rollups,
            final(self).total_transactions == old(self).total_transactions,
            r is Err ==> final(self).rollups@ == old(self).rollups@,
            !rollup_has(old(self).rollups@, rollup_id@) ==> (r is Err && r->Err_0@
                == "Rollup not found"@),
            rollup_has(old(self).rollups@, rollup_id@) ==> {
                let i = rollup_idx(old(self).rollups@, rollup_id@);
                let rol = old(self).rollups@[i];
                if !batch_has(rol.batches@, batch_id) {
                    r is Err && r->Err_0@ == "Batch not found"@
                } else {
                    let bi = batch_idx(rol.batches@, batch_id);
                    let b0 = rol.batches@[bi];
                    if b0.finalized {
                        r is Err && r->Err_0@ == "Already finalized"@
                    } else if rol.rollup_type == RollupType::ZkRollup && b0.proof is None {
                        r is Err && r->Err_0@ == "No validity proof"@
                    } else {
                        // For an optimistic rollup the outcome depends on the
                        // wall clock; either way the effect is pinned.
                        &&& (rol.rollup_type == RollupType::Optimistic ==> (r is Ok || (r is Err
                            && r->Err_0@ == "Challenge period not ended"@)))
                        &&& (rol.rollup_type != RollupType::Optimistic ==> r is Ok)
                        &&& (r is Ok ==> {
                            &&& final(self).rollups@.len() == old(self).rollups@.len()
                            &&& forall|j: int|
                                0 <= j < old(self).rollups@.len() && j != i
                                    ==> final(self).rollups@[j] == old(self).rollups@[j]
                            &&& final(self).rollups@[i].batches@.len() == rol.batches@.len()
                            &&& forall|j: int|
                                0 <= j < rol.batches@.len() && j != bi
                                    ==> final(self).rollups@[i].batches@[j] == rol.batches@[j]
                            &&& final(self).rollups@[i].batches@[bi].finalized
                            &&& final(self).rollups@[i].batches@[bi].batch_id == b0.batch_id
                            &&& final(self).rollups@[i].batches@[bi].proof == b0.proof
                            &&& final(self).rollups@[i].transactions@ == rol.transactions@
                            &&& final(self).rollups@[i].rollup_id == rol.rollup_id
                            &&& final(self).rollups@[i].state_root == rol.state_root
                            &&& final(self).rollups@[i].active == rol.active
                        })
                    }
                }
            },
    {
        let ghost rs0 = self.rollups@;
        let i = match self.find(rollup_id) {
            None => {
                return Err("Rollup not found".to_owned());
            },
            Some(i) => i,
        };
        let bi = match Self::find_batch(&self.rollups[i].batches, batch_id) {
            None => {
                return Err("Batch not found".to_owned());
            },
            Some(bi) => bi,
        };
        if self.rollups[i].batches[bi].finalized {
            return Err("Already finalized".to_owned());
        }
        let is_optimistic = matches!(self.rollups[i].rollup_type, RollupType::Optimistic);
        let is_zk = matches!(self.rollups[i].rollup_type, RollupType::ZkRollup);
        if is_zk && self.rollups[i].batches[bi].proof.is_none() {
            return Err("No validity proof".to_owned());
        }
        if is_optimistic {
            let current_time = Self::current_timestamp();
            if current_time < self.rollups[i].batches[bi].challenge_period_end {
                return Err("Challenge period not ended".to_owned());
            }
        }
        let mut rollup = self.rollups.remove(i);
        let ghost bs0 = rollup.batches@;
        let mut batch = rollup.batches.remove(bi);
        batch.finalized = true;
        rollup.batches.insert(bi, batch);
        self.rollups.insert(i, rollup);
        proof {
            assert(self.rollups@ =~= rs0.update(i as int, self.rollups@[i as int]));
            assert(self.rollups@[i as int].batches@ =~= bs0.update(
                bi as int,
                self.rollups@[i as int].batches@[bi as int],
            ));
        }
        Ok(())
    }

    /// A deposit entry towards an existing rollup: a transaction tag tied
    /// to the running transaction count.
    pub fn bridge_deposit(&mut self, rollup_id: &str, from: String, amount: u64) -> (r: Result<
        String,
        String,
    >)
        ensures
            *final(self) == *old(self),
            r is Ok <==> rollup_has(old(self).rollups@, rollup_id@),
            r is Ok ==> r->Ok_0@ == "deposit_"@ + spec_udec(old(self).total_transactions as nat),
            r is Err ==> r->Err_0@ == "Rollup not found"@,
    {
        match self.find(rollup_id) {
            None => Err("Rollup not found".to_owned()),
            Some(_i) => {
                let mut s = "deposit_".to_owned();
                let n = crate::text::u64_to_string(self.total_transactions);
                s.append(n.as_str());
                Ok(s)
            },
        }
    }

    /// A withdrawal entry from an existing rollup, tagged like deposits.
    pub fn bridge_withdraw(&mut self, rollup_id: &str, to: String, amount: u64) -> (r: Result<
        String,
        String,
    >)
        ensures
            *final(self) == *old(self),
            r is Ok <==> rollup_has(old(self).rollups@, rollup_id@),
            r is Ok ==> r->Ok_0@ == "withdraw_"@ + spec_udec(old(self).total_transactions as nat),
            r is Err ==> r->Err_0@ == "Rollup not found"@,
    {
        match self.find(rollup_id) {
            None => Err("Rollup not found".to_owned()),
            Some(_i) => {
                let mut s = "withdraw_".to_owned();
                let n = crate::text::u64_to_string(self.total_transactions);
                s.append(n.as_str());
                Ok(s)
            },
        }
    }

    /// A fraud proof is accepted when it carries any content.
    pub fn verify_fraud_proof(&self, proof: &[u8]) -> (r: bool)
        ensures
            r == (proof@.len() > 0),
    {
        proof.len() > 0
    }

    /// A validity proof is accepted when it carries any content.
    pub fn verify_validity_proof(&self, proof: &[u8]) -> (r: bool)
        ensures
            r == (proof@.len() > 0),
    {
        proof.len() > 0
    }

    /// The current Unix time in seconds.
    pub fn current_timestamp() -> u64 {
        crate::clock::now_unix_secs()
    }
}


/// How many rollups are active.
pub open spec fn spec_active_count(rs: Seq<Rollup>) -> int
    decreases rs.len(),
{
    if rs.len() == 0 {
        0
    } else {
        spec_active_count(rs.drop_last()) + (if rs.last().active {
            1int
        } else {
            0int
        })
    }
}

/// The combined number of batches across all rollups.
pub open spec fn spec_batch_count(rs: Seq<Rollup>) -> int
    decreases rs.len(),
{
    if rs.len() == 0 {
        0
    } else {
        spec_batch_count(rs.drop_last()) + rs.last().batches@.len()
    }
}

proof fn lemma_active_count_bound(rs: Seq<Rollup>)
    ensures
        0 <= spec_active_count(rs) <= rs.len(),
    decreases rs.len(),
{
    if rs.len() > 0 {
        lemma_active_count_bound(rs.drop_last());
    }
}

proof fn lemma_batch_count_nonneg(rs: Seq<Rollup>)
    ensures
        spec_batch_count(rs) >= 0,
    decreases rs.len(),
{
    if rs.len() > 0 {
        lemma_batch_count_nonneg(rs.drop_last());
    }
}

impl RollupManager {
    /// The one-line summary of the manager's holdings; the batch total is
    /// capped at the machine word.
    pub fn get_stats(&self) -> (r: String)
        ensures
            r@ == "Rollup Manager Stats:\nTotal Rollups: "@ + spec_udec(self.total_rollups as nat)
                + "\nActive Rollups: "@ + spec_udec(spec_active_count(self.rollups@) as nat)
                + "\nTotal Transactions: "@ + spec_udec(self.total_transactions as nat)
                + "\nTotal Batches: "@ + spec_udec(
                vstd::math::min(spec_batch_count(self.rollups@), u64::MAX as int) as nat,
            ),
    {
        let mut active: usize = 0;
        let mut batches: u64 = 0;
        let mut i: usize = 0;
        while i < self.rollups.len()
            invariant
                i <= self.rollups@.len(),
                active == spec_active_count(self.rollups@.take(i as int)),
                active <= i,
                batches as int == vstd::math::min(
                    spec_batch_count(self.rollups@.take(i as int)),
                    u64::MAX as int,
                ),
            decreases self.rollups@.len() - i,
        {
            proof {
                assert(self.rollups@.take(i as int + 1).drop_last() =~= self.rollups@.take(
                    i as int,
                ));
                assert(self.rollups@.take(i as int + 1).last() == self.rollups@[i as int]);
                lemma_batch_count_nonneg(self.rollups@.take(i as int));
            }
            if self.rollups[i].active {
                active = active + 1;
            }
            let bl = self.rollups[i].batches.len() as u64;
            batches = if batches <= u64::MAX - bl {
                batches + bl
            } else {
                u64::MAX
            };
            i = i + 1;
        }
        proof {
            assert(self.rollups@.take(self.rollups@.len() as int) =~= self.rollups@);
            lemma_active_count_bound(self.rollups@);
        }
        let mut s = "Rollup Manager Stats:\nTotal Rollups: ".to_owned();
        let a = crate::text::u64_to_string(self.total_rollups);
        s.append(a.as_str());
        s.append("\nActive Rollups: ");
        let b = crate::text::usize_to_string(active);
        s.append(b.as_str());
        s.append("\nTotal Transactions: ");
        let c = crate::text::u64_to_string(self.total_transactions);
        s.append(c.as_str());
        s.append("\nTotal Batches: ");
        let d = crate::text::u64_to_string(batches);
        s.append(d.as_str());
        s
    }
}

} // verus!
