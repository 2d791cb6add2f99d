//! Token standards: a fungible token with a fixed supply held first by
//! the zero address, and a non-fungible token with per-id owners.

use vstd::prelude::*;
use vstd::string::StringExecFns;

verus! {

/// Whether a balance is recorded under the address.
pub open spec fn balance_has(v: Seq<(String, u64)>, addr: Seq<char>) -> bool {
    exists|i: int| 0 <= i < v.len() && v[i].0@ == addr
}

/// The index of the first balance recorded under the address.
pub open spec fn balance_idx(v: Seq<(String, u64)>, addr: Seq<char>) -> int
    decreases v.len(),
{
    if v.len() == 0 {
        0
    } else if v[0].0@ == addr {
        0
    } else {
        1 + balance_idx(v.drop_first(), addr)
    }
}

proof fn lemma_balance_idx(v: Seq<(String, u64)>, addr: Seq<char>, i: int)
    requires
        0 <= i < v.len(),
        v[i].0@ == addr,
        forall|j: int| 0 <= j < i ==> v[j].0@ != addr,
    ensures
        balance_idx(v, addr) == i,
    decreases i,
{
    if i > 0 {
        lemma_balance_idx(v.drop_first(), addr, i - 1);
    }
}

/// The balance recorded under the address, zero when absent.
pub open spec fn spec_token_balance(v: Seq<(String, u64)>, addr: Seq<char>) -> u64 {
    if balance_has(v, addr) {
        v[balance_idx(v, addr)].1
    } else {
        0
    }
}

pub struct ERC20Token {
    pub name: String,
    pub symbol: String,
    pub total_supply: u64,
    pub balances: Vec<(String, u64)>,
}

impl ERC20Token {
    /// A token whose whole supply starts on the zero address.
    pub fn new(name: String, symbol: String, total_supply: u64) -> (t: Self)
        ensures
            t.name == name,
            t.symbol == symbol,
            t.total_supply == total_supply,
            t.balances@.len() == 1,
            t.balances@[0].0@ == "0x0000000000000000000000000000000000000000"@,
            t.balances@[0].1 == total_supply,
    {
        let mut balances: Vec<(String, u64)> = Vec::new();
        balances.push(("0x0000000000000000000000000000000000000000".to_owned(), total_supply));
        ERC20Token { name, symbol, total_supply, balances }
    }

    fn find(&self, address: &str) -> (r: Option<usize>)
        ensures
            match r {
                Some(i) => i < self.balances@.len() && self.balances@[i as int].0@ == address@
                    && balance_idx(self.balances@, address@) == i,
                None => !balance_has(self.balances@, address@),
            },
    {
        let needle = address.to_owned();
        let mut i: usize = 0;
        while i < self.balances.len()
            invariant
                i <= self.balances@.len(),
                needle@ == address@,
                forall|j: int| 0 <= j < i ==> self.balances@[j].0@ != address@,
            decreases self.balances@.len() - i,
        {
            if self.balances[i].0 == needle {
                proof {
                    lemma_balance_idx(self.balances@, address@, i as int);
                }
                return Some(i);
            }
            i = i + 1;
        }
        None
    }

    /// The token's name.
    pub fn name(&self) -> (r: &str)
        ensures
            r@ == self.name@,
    {
        self.name.as_str()
    }

    /// The token's ticker symbol.
    pub fn symbol(&self) -> (r: &str)
        ensures
            r@ == self.symbol@,
    {
        self.symbol.as_str()
    }

    /// The fixed total supply.
    pub fn total_supply(&self) -> (r: u64)
        ensures
            r == self.total_supply,
    {
        self.total_supply
    }

    /// The balance of an address, zero for unknown holders.
    pub fn balance_of(&self, address: &str) -> (r: u64)
        ensures
            r == spec_token_balance(self.balances@, address@),
    {
        match self.find(address) {
            Some(i) => self.balances[i].1,
            None => 0,
        }
    }

    /// Moves `amount` between holders; refused when the sender's balance
    /// is short. The credit requires headroom at the recipient.
    pub fn transfer(&mut self, from: &str, to: &str, amount: u64) -> (r: Result<bool, String>)
        requires
            spec_token_balance(old(self).balances@, to@) + amount <= u64::MAX || from@ == to@,
        ensures
            final(self).name == old(self).name,
            final(self).symbol == old(self).symbol,
            final(self).total_supply == old(self).total_supply,
            r is Ok <==> spec_token_balance(old(self).balances@, from@) >= amount,
            r is Err ==> final(self).balances@ == old(self).balances@ && r->Err_0@
                == "Insufficient balance"@,
            (r is Ok && from@ != to@) ==> {
                &&& spec_token_balance(final(self).balances@, from@) == spec_token_balance(
                    old(self).balances@,
                    from@,
                ) - amount
                &&& spec_token_balance(final(self).balances@, to@) == spec_token_balance(
                    old(self).balances@,
                    to@,
                ) + amount
            },
            (r is Ok && from@ == to@) ==> spec_token_balance(final(self).balances@, from@)
                == spec_token_balance(old(self).balances@, from@),
    {
        let from_balance = self.balance_of(from);
        if from_balance < amount {
            return Err("Insufficient balance".to_owned());
        }
        self.set_balance(from, from_balance - amount);
        let to_balance = self.balance_of(to);
        proof {
            if from@ == to@ {
                assert(to_balance == from_balance - amount);
            } else {
                assert(to_balance == spec_token_balance(old(self).balances@, to@));
            }
        }
        self.set_balance(to, to_balance + amount);
        Ok(true)
    }

    /// Records a balance under an address, replacing any earlier record.
    fn set_balance(&mut self, address: &str, value: u64)
        ensures
            final(self).name == old(self).name,
            final(self).symbol == old(self).symbol,
            final(self).total_supply == old(self).total_supply,
            spec_token_balance(final(self).balances@, address@) == value,
            forall|a: Seq<char>|
                a != address@ ==> spec_token_balance(final(self).balances@, a)
                    == spec_token_balance(old(self).balances@, a),
    {
        let ghost v0 = self.balances@;
        let needle = address.to_owned();
        let mut i: usize = 0;
        while i < self.balances.len()
            invariant
                i <= v0.len(),
                v0 == old(self).balances@,
                self.balances@ == v0,
                self.name == old(self).name,
                self.symbol == old(self).symbol,
                self.total_supply == old(self).total_supply,
                needle@ == address@,
                forall|j: int| 0 <= j < i ==> v0[j].0@ != address@,
            decreases v0.len() - i,
        {
            if self.balances[i].0 == needle {
                let _old_entry = self.balances.remove(i);
                self.balances.insert(i, (needle, value));
                proof {
                    assert(self.balances@ =~= v0.update(i as int, self.balances@[i as int]));
                    lemma_balance_idx(v0, address@, i as int);
                    lemma_balance_idx(self.balances@, address@, i as int);
                    lemma_balances_same_except(v0, self.balances@, address@);
                }
                return;
            }
            i = i + 1;
        }
        self.balances.push((needle, value));
        proof {
            assert(self.balances@.drop_last() =~= v0);
            assert(self.balances@[self.balances@.len() - 1].0@ == address@);
            lemma_balance_idx(self.balances@, address@, v0.len() as int);
            lemma_balances_same_except(v0, self.balances@, address@);
        }
    }
}

/// Two balance tables that agree entry-by-entry away from `addr` agree on
/// every balance away from `addr`.
proof fn lemma_balances_same_except(v0: Seq<(String, u64)>, v1: Seq<(String, u64)>, addr: Seq<char>)
    requires
        forall|k: int|
            0 <= k < v0.len() && v0[k].0@ != addr ==> 0 <= k < v1.len() && v1[k] == v0[k],
        forall|k: int|
            0 <= k < v1.len() && v1[k].0@ != addr ==> 0 <= k < v0.len() && v0[k] == v1[k],
    ensures
        forall|a: Seq<char>|
            a != addr ==> spec_token_balance(v1, a) == spec_token_balance(v0, a),
{
    assert forall|a: Seq<char>| a != addr implies spec_token_balance(v1, a) == spec_token_balance(
        v0,
        a,
    ) by {
        if balance_has(v0, a) {
            lemma_balance_idx_sound(v0, a);
            let k = balance_idx(v0, a);
            assert(v1[k] == v0[k]);
            lemma_balance_idx(v1, a, k);
        } else if balance_has(v1, a) {
            lemma_balance_idx_sound(v1, a);
            let k = balance_idx(v1, a);
            assert(v0[k] == v1[k]);
            lemma_balance_idx(v0, a, k);
        }
    }
}

/// When a balance is recorded, `balance_idx` names the first record.
proof fn lemma_balance_idx_sound(v: Seq<(String, u64)>, addr: Seq<char>)
    requires
        balance_has(v, addr),
    ensures
        0 <= balance_idx(v, addr) < v.len(),
        v[balance_idx(v, addr)].0@ == addr,
        forall|j: int| 0 <= j < balance_idx(v, addr) ==> v[j].0@ != addr,
    decreases v.len(),
{
    if v[0].0@ != addr {
        let w = choose|i: int| 0 <= i < v.len() && v[i].0@ == addr;
        assert(v.drop_first()[w - 1].0@ == addr);
        lemma_balance_idx_sound(v.drop_first(), addr);
        assert forall|j: int| 0 <= j < balance_idx(v, addr) implies v[j].0@ != addr by {
            if j > 0 {
                assert(v.drop_first()[j - 1].0@ == v[j].0@);
            }
        }
    }
}

/// Whether a token id has an owner on record.
pub open spec fn owner_has(v: Seq<(u64, String)>, id: u64) -> bool {
    exists|i: int| 0 <= i < v.len() && v[i].0 == id
}

/// The index of the first ownership record for the id.
pub open spec fn owner_idx(v: Seq<(u64, String)>, id: u64) -> int
    decreases v.len(),
{
    if v.len() == 0 {
        0
    } else if v[0].0 == id {
        0
    } else {
        1 + owner_idx(v.drop_first(), id)
    }
}

proof fn lemma_owner_idx(v: Seq<(u64, String)>, id: u64, i: int)
    requires
        0 <= i < v.len(),
        v[i].0 == id,
        forall|j: int| 0 <= j < i ==> v[j].0 != id,
    ensures
        owner_idx(v, id) == i,
    decreases i,
{
    if i > 0 {
        lemma_owner_idx(v.drop_first(), id, i - 1);
    }
}

pub struct ERC721Token {
    pub name: String,
    pub symbol: String,
    pub owners: Vec<(u64, String)>,
}

impl ERC721Token {
    /// A collection with no tokens minted yet.
    pub fn new(name: String, symbol: String) -> (t: Self)
        ensures
            t.name == name,
            t.symbol == symbol,
            t.owners@ == Seq::<(u64, String)>::empty(),
    {
        ERC721Token { name, symbol, owners: Vec::new() }
    }

    fn find(&self, token_id: u64) -> (r: Option<usize>)
        ensures
            match r {
                Some(i) => i < self.owners@.len() && self.owners@[i as int].0 == token_id
                    && owner_idx(self.owners@, token_id) == i,
                None => !owner_has(self.owners@, token_id),
            },
    {
        let mut i: usize = 0;
        while i < self.owners.len()
            invariant
                i <= self.owners@.len(),
                forall|j: int| 0 <= j < i ==> self.owners@[j].0 != token_id,
            decreases self.owners@.len() - i,
        {
            if self.owners[i].0 == token_id {
                proof {
                    lemma_owner_idx(self.owners@, token_id, i as int);
                }
                return Some(i);
            }
            i = i + 1;
        }
        None
    }

    /// Mints a fresh token to an owner; an already-minted id is refused.
    pub fn mint(&mut self, token_id: u64, owner: String) -> (r: Result<bool, String>)
        ensures
            final(self).name == old(self).name,
            final(self).symbol == old(self).symbol,
            r is Ok <==> !owner_has(old(self).owners@, token_id),
            r is Err ==> final(self).owners@ == old(self).owners@ && r->Err_0@
                == "Token already exists"@,
            r is Ok ==> final(self).owners@.len() == old(self).owners@.len() + 1
                && final(self).owners@.drop_last() == old(self).owners@
                && final(self).owners@.last().0 == token_id
                && final(self).owners@.last().1 == owner,
    {
        if self.find(token_id).is_some() {
            return Err("Token already exists".to_owned());
        }
        let ghost v0 = self.owners@;
        self.owners.push((token_id, owner));
        proof {
            assert(self.owners@.drop_last() =~= v0);
        }
        Ok(true)
    }

    /// The owner on record for a token id, if any.
    pub fn owner_of(&self, token_id: u64) -> (r: Option<String>)
        ensures
            r is Some <==> owner_has(self.owners@, token_id),
            r is Some ==> r->0@ == self.owners@[owner_idx(self.owners@, token_id)].1@,
    {
        match self.find(token_id) {
            Some(i) => Some(self.owners[i].1.clone()),
            None => None,
        }
    }

    /// Reassigns a minted token to a new owner; an unknown id is refused.
    pub fn transfer(&mut self, token_id: u64, to: String) -> (r: Result<bool, String>)
        ensures
            final(self).name == old(self).name,
            final(self).symbol == old(self).symbol,
            r is Ok <==> owner_has(old(self).owners@, token_id),
            r is Err ==> final(self).owners@ == old(self).owners@ && r->Err_0@
                == "Token doesn't exist"@,
            r is Ok ==> {
                let i = owner_idx(old(self).owners@, token_id);
                &&& final(self).owners@.len() == old(self).owners@.len()
                &&& forall|j: int|
                    0 <= j < old(self).owners@.len() && j != i ==> final(self).owners@[j] == old(
                        self,
                    ).owners@[j]
                &&& final(self).owners@[i].0 == token_id
                &&& final(self).owners@[i].1 == to
            },
    {
        let ghost v0 = self.owners@;
        match self.find(token_id) {
            Some(i) => {
                let _old_entry = self.owners.remove(i);
                self.owners.insert(i, (token_id, to));
                proof {
                    assert(self.owners@ =~= v0.update(i as int, self.owners@[i as int]));
                }
                Ok(true)
            },
            None => Err("Token doesn't exist".to_owned()),
        }
    }
}

} // verus!
