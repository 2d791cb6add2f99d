//! Cross-chain bridging: locked assets, wrapped minting, validator
//! consensus and fee estimation.

use vstd::prelude::*;
use vstd::string::StringExecFns;

verus! {

#[derive(Debug, Clone, Copy, PartialEq, Eq, Structural)]
pub enum Chain {
    Ethereum,
    Bitcoin,
    Solana,
    Polygon,
    BSC,
    Avalanche,
    NUSA,
}

impl Chain {
    pub open spec fn spec_label(&self) -> Seq<char> {
        match self {
            Chain::Ethereum => "Ethereum"@,
            Chain::Bitcoin => "Bitcoin"@,
            Chain::Solana => "Solana"@,
            Chain::Polygon => "Polygon"@,
            Chain::BSC => "BSC"@,
            Chain::Avalanche => "Avalanche"@,
            Chain::NUSA => "NUSA"@,
        }
    }

    /// The chain's name as written in wrapped-token ids.
    pub fn label(&self) -> (r: &'static str)
        ensures
            r@ == self.spec_label(),
    {
        match self {
            Chain::Ethereum => "Ethereum",
            Chain::Bitcoin => "Bitcoin",
            Chain::Solana => "Solana",
            Chain::Polygon => "Polygon",
            Chain::BSC => "BSC",
            Chain::Avalanche => "Avalanche",
            Chain::NUSA => "NUSA",
        }
    }
}

#[derive(Debug, Clone, Copy, PartialEq, Eq, Structural)]
pub enum BridgeStatus {
    Pending,
    Locked,
    Validated,
    Minted,
    Completed,
    Failed,
}

pub struct BridgeTransaction {
    pub id: String,
    pub from_chain: Chain,
    pub to_chain: Chain,
    pub from_address: String,
    pub to_address: String,
    pub amount: u64,
    pub token: String,
    pub status: BridgeStatus,
    pub timestamp: u64,
}

/// Whether a lock is recorded under the transaction id.
pub open spec fn lock_has(v: Seq<(String, u64)>, id: Seq<char>) -> bool {
    exists|i: int| 0 <= i < v.len() && v[i].0@ == id
}

/// The index of the first lock recorded under the id.
pub open spec fn lock_idx(v: Seq<(String, u64)>, id: Seq<char>) -> int
    decreases v.len(),
{
    if v.len() == 0 {
        0
    } else if v[0].0@ == id {
        0
    } else {
        1 + lock_idx(v.drop_first(), id)
    }
}

proof fn lemma_lock_idx(v: Seq<(String, u64)>, id: Seq<char>, i: int)
    requires
        0 <= i < v.len(),
        v[i].0@ == id,
        forall|j: int| 0 <= j < i ==> v[j].0@ != id,
    ensures
        lock_idx(v, id) == i,
    decreases i,
{
    if i > 0 {
        lemma_lock_idx(v.drop_first(), id, i - 1);
    }
}

/// The bridging fee: a base fee weighted by the dearest chain involved,
/// plus a tenth of a percent of the amount.
pub open spec fn spec_fee(amount: u64, from_chain: Chain, to_chain: Chain) -> int {
    let mult: int = if from_chain == Chain::Ethereum || to_chain == Chain::Ethereum {
        3
    } else if from_chain == Chain::Bitcoin || to_chain == Chain::Bitcoin {
        2
    } else {
        1
    };
    1000 * mult + amount / 1000
}

pub struct UniversalBridge {
    pub locked_assets: Vec<(String, u64)>,
    pub validators: Vec<String>,
    pub min_validators: usize,
}

impl UniversalBridge {
    /// A bridge with three named validators, two of which must agree.
    pub fn new() -> (b: Self)
        ensures
            b.locked_assets@ == Seq::<(String, u64)>::empty(),
            b.validators@.len() == 3,
            b.validators@[0]@ == "validator1"@,
            b.validators@[1]@ == "validator2"@,
            b.validators@[2]@ == "validator3"@,
            b.min_validators == 2,
    {
        let mut validators: Vec<String> = Vec::new();
        validators.push("validator1".to_owned());
        validators.push("validator2".to_owned());
        validators.push("validator3".to_owned());
        UniversalBridge { locked_assets: Vec::new(), validators, min_validators: 2 }
    }

    /// Records `amount` as locked under the transaction id, replacing any
    /// earlier lock under the same id.
    pub fn lock_assets(&mut self, tx_id: &str, chain: Chain, amount: u64) -> (r: Result<(), String>)
        ensures
            r is Ok,
            final(self).validators@ == old(self).validators@,
            final(self).min_validators == old(self).min_validators,
            lock_has(final(self).locked_assets@, tx_id@),
            lock_has(old(self).locked_assets@, tx_id@) ==> {
                let i = lock_idx(old(self).locked_assets@, tx_id@);
                &&& final(self).locked_assets@.len() == old(self).locked_assets@.len()
                &&& final(self).locked_assets@[i].0@ == tx_id@
                &&& final(self).locked_assets@[i].1 == amount
                &&& forall|j: int|
                    0 <= j < old(self).locked_assets@.len() && j != i
                        ==> final(self).locked_assets@[j] == old(self).locked_assets@[j]
            },
            !lock_has(old(self).locked_assets@, tx_id@) ==> {
                &&& final(self).locked_assets@.len() == old(self).locked_assets@.len() + 1
                &&& final(self).locked_assets@.drop_last() == old(self).locked_assets@
                &&& final(self).locked_assets@.last().0@ == tx_id@
                &&& final(self).locked_assets@.last().1 == amount
            },
    {
        let ghost v0 = self.locked_assets@;
        let needle = tx_id.to_owned();
        let mut i: usize = 0;
        while i < self.locked_assets.len()
            invariant
                i <= v0.len(),
                v0 == old(self).locked_assets@,
                self.locked_assets@ == v0,
                self.validators@ == old(self).validators@,
                self.min_validators == old(self).min_validators,
                needle@ == tx_id@,
                forall|j: int| 0 <= j < i ==> v0[j].0@ != tx_id@,
            decreases v0.len() - i,
        {
            if self.locked_assets[i].0 == needle {
                let _old_entry = self.locked_assets.remove(i);
                self.locked_assets.insert(i, (needle, amount));
                proof {
                    assert(self.locked_assets@ =~= v0.update(
                        i as int,
                        self.locked_assets@[i as int],
                    ));
                    lemma_lock_idx(v0, tx_id@, i as int);
                    assert(self.locked_assets@[i as int].0@ == tx_id@);
                }
                return Ok(());
            }
            i = i + 1;
        }
        self.locked_assets.push((needle, amount));
        proof {
            assert(self.locked_assets@.drop_last() =~= v0);
            assert(self.locked_assets@[self.locked_assets@.len() - 1].0@ == tx_id@);
        }
        Ok(())
    }

    /// Mints a wrapped-token id for a recorded lock; with no lock under
    /// the id the mint is refused.
    pub fn mint_wrapped(&self, tx_id: &str, to_chain: Chain, to_address: &str, amount: u64) -> (r:
        Result<String, String>)
        ensures
            r is Ok <==> lock_has(self.locked_assets@, tx_id@),
            r is Ok ==> r->Ok_0@ == "w"@ + to_chain.spec_label() + "-"@ + tx_id@,
            r is Err ==> r->Err_0@ == "No locked assets found"@,
    {
        let mut i: usize = 0;
        let mut found = false;
        let needle = tx_id.to_owned();
        while i < self.locked_assets.len()
            invariant
                i <= self.locked_assets@.len(),
                needle@ == tx_id@,
                !found ==> forall|j: int| 0 <= j < i ==> self.locked_assets@[j].0@ != tx_id@,
                found ==> lock_has(self.locked_assets@, tx_id@),
            decreases self.locked_assets@.len() - i,
        {
            if self.locked_assets[i].0 == needle {
                found = true;
            }
            i = i + 1;
        }
        if !found {
            return Err("No locked assets found".to_owned());
        }
        let mut wrapped = "w".to_owned();
        wrapped.append(to_chain.label());
        wrapped.append("-");
        wrapped.append(tx_id);
        Ok(wrapped)
    }

    /// Releases the first lock recorded under the id, if any.
    pub fn burn_and_unlock(&mut self, tx_id: &str, amount: u64) -> (r: Result<(), String>)
        ensures
            r is Ok,
            final(self).validators@ == old(self).validators@,
            final(self).min_validators == old(self).min_validators,
            lock_has(old(self).locked_assets@, tx_id@) ==> final(self).locked_assets@ == old(
                self,
            ).locked_assets@.remove(lock_idx(old(self).locked_assets@, tx_id@)),
            !lock_has(old(self).locked_assets@, tx_id@) ==> final(self).locked_assets@ == old(
                self,
            ).locked_assets@,
    {
        let ghost v0 = self.locked_assets@;
        let needle = tx_id.to_owned();
        let mut i: usize = 0;
        while i < self.locked_assets.len()
            invariant
                i <= v0.len(),
                v0 == old(self).locked_assets@,
                self.locked_assets@ == v0,
                self.validators@ == old(self).validators@,
                self.min_validators == old(self).min_validators,
                needle@ == tx_id@,
                forall|j: int| 0 <= j < i ==> v0[j].0@ != tx_id@,
            decreases v0.len() - i,
        {
            if self.locked_assets[i].0 == needle {
                self.locked_assets.remove(i);
                proof {
                    lemma_lock_idx(v0, tx_id@, i as int);
                }
                return Ok(());
            }
            i = i + 1;
        }
        Ok(())
    }

    /// Validator consensus: enough signatures must be presented.
    pub fn validate_bridge_tx(&self, tx: &BridgeTransaction, signatures: Vec<String>) -> (r: bool)
        ensures
            r == (signatures@.len() >= self.min_validators),
    {
        signatures.len() >= self.min_validators
    }

    /// Estimates the bridging fee for an amount between two chains.
    pub fn calculate_fee(&self, amount: u64, from_chain: Chain, to_chain: Chain) -> (r: u64)
        ensures
            r == spec_fee(amount, from_chain, to_chain),
    {
        let base_fee: u64 = 1000;
        let chain_multiplier: u64 = if matches!(from_chain, Chain::Ethereum) || matches!(
            to_chain,
            Chain::Ethereum,
        ) {
            3
        } else if matches!(from_chain, Chain::Bitcoin) || matches!(to_chain, Chain::Bitcoin) {
            2
        } else {
            1
        };
        let percentage_fee = amount / 1000;
        base_fee * chain_multiplier + percentage_fee
    }
}

} // verus!
