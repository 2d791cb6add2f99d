//! The account ledger: an authoritative mapping of address to account
//! state, with atomic transfers. Accounts are held in a vector with
//! pairwise-distinct addresses; the sum of all balances never exceeds
//! `u64::MAX`, which rules credit overflow out.

use vstd::prelude::*;
use vstd::string::StringExecFns;

verus! {

pub struct Account {
    pub address: String,
    pub balance: u64,
    pub nonce: u64,
    pub code: Vec<u8>,
    pub storage: Vec<(String, String)>,
}

impl Account {
    /// A fresh account with the given balance, zero nonce, no code and no
    /// storage.
    pub fn new(address: String, balance: u64) -> (a: Self)
        ensures
            a.address == address,
            a.balance == balance,
            a.nonce == 0,
            a.code@ == Seq::<u8>::empty(),
            a.storage@ == Seq::<(String, String)>::empty(),
    {
        Account { address, balance, nonce: 0, code: Vec::new(), storage: Vec::new() }
    }
}

#[derive(Debug, Clone, Copy, PartialEq, Eq, Structural)]
pub enum LedgerError {
    UnknownSender,
    InsufficientBalance,
}

impl LedgerError {
    pub open spec fn spec_message(&self) -> Seq<char> {
        match self {
            LedgerError::UnknownSender => "From account not found"@,
            LedgerError::InsufficientBalance => "Insufficient balance"@,
        }
    }

    /// The diagnostic text for this error.
    pub fn message(&self) -> (r: String)
        ensures
            r@ == self.spec_message(),
    {
        match self {
            LedgerError::UnknownSender => "From account not found".to_owned(),
            LedgerError::InsufficientBalance => "Insufficient balance".to_owned(),
        }
    }
}

/// Whether some account in `accs` has the address `addr`.
pub open spec fn spec_has(accs: Seq<Account>, addr: Seq<char>) -> bool {
    exists|i: int| 0 <= i < accs.len() && accs[i].address@ == addr
}

/// The index of the account with address `addr` (meaningful when
/// `spec_has` holds and addresses are distinct).
pub open spec fn spec_idx(accs: Seq<Account>, addr: Seq<char>) -> int {
    choose|i: int| 0 <= i < accs.len() && accs[i].address@ == addr
}

/// The balance recorded for `addr`, or `None` when the address is unknown.
pub open spec fn spec_balance(accs: Seq<Account>, addr: Seq<char>) -> Option<u64> {
    if spec_has(accs, addr) {
        Some(accs[spec_idx(accs, addr)].balance)
    } else {
        None
    }
}

/// The nonce recorded for `addr`, defaulting to 0 for unknown addresses.
pub open spec fn spec_nonce(accs: Seq<Account>, addr: Seq<char>) -> u64 {
    if spec_has(accs, addr) {
        accs[spec_idx(accs, addr)].nonce
    } else {
        0
    }
}

/// Addresses are pairwise distinct.
pub open spec fn unique_addresses(accs: Seq<Account>) -> bool {
    forall|i: int, j: int|
        0 <= i < j < accs.len() ==> accs[i].address@ != accs[j].address@
}

/// The sum of all balances.
pub open spec fn spec_total(accs: Seq<Account>) -> int
    decreases accs.len(),
{
    if accs.len() == 0 {
        0
    } else {
        spec_total(accs.drop_last()) + accs.last().balance
    }
}

/// A nonce bumped by one, stopping at the numeric ceiling.
pub open spec fn bump_nonce(n: u64) -> u64 {
    if n < u64::MAX {
        (n + 1) as u64
    } else {
        n
    }
}

/// The ledger after the sender of a transfer is debited: its balance is
/// down by `amount` and its nonce bumped; nothing else moves.
pub open spec fn spec_debit(accs: Seq<Account>, from: Seq<char>, amount: u64) -> Seq<Account> {
    let i = spec_idx(accs, from);
    let sender = accs[i];
    accs.update(i, Account {
        balance: (sender.balance - amount) as u64,
        nonce: bump_nonce(sender.nonce),
        ..sender
    })
}

/// How a successful transfer relates the new ledger to the old one: the
/// sender debited and bumped, then the recipient credited — updated in
/// place when present, appended as a fresh account holding exactly the
/// credited amount when absent.
pub open spec fn transfer_post(
    accs0: Seq<Account>,
    accs1: Seq<Account>,
    from: Seq<char>,
    to: Seq<char>,
    amount: u64,
) -> bool {
    let d = spec_debit(accs0, from, amount);
    if spec_has(d, to) {
        let j = spec_idx(d, to);
        let rec = d[j];
        accs1 == d.update(j, Account { balance: (rec.balance + amount) as u64, ..rec })
    } else {
        accs1.len() == d.len() + 1 && accs1.drop_last() == d && accs1.last().address@ == to
            && accs1.last().balance == amount && accs1.last().nonce == 0
            && accs1.last().code@ == Seq::<u8>::empty()
            && accs1.last().storage@ == Seq::<(String, String)>::empty()
    }
}

pub proof fn lemma_total_update(accs: Seq<Account>, i: int, a: Account)
    requires
        0 <= i < accs.len(),
    ensures
        spec_total(accs.update(i, a)) == spec_total(accs) - accs[i].balance + a.balance,
    decreases accs.len(),
{
    if accs.len() > 0 {
        if i == accs.len() - 1 {
            assert(accs.update(i, a).drop_last() =~= accs.drop_last());
        } else {
            assert(accs.update(i, a).drop_last() =~= accs.drop_last().update(i, a));
            lemma_total_update(accs.drop_last(), i, a);
        }
    }
}

pub proof fn lemma_total_push(accs: Seq<Account>, a: Account)
    ensures
        spec_total(accs.push(a)) == spec_total(accs) + a.balance,
{
    assert(accs.push(a).drop_last() =~= accs);
}

pub proof fn lemma_total_nonneg(accs: Seq<Account>)
    ensures
        spec_total(accs) >= 0,
    decreases accs.len(),
{
    if accs.len() > 0 {
        lemma_total_nonneg(accs.drop_last());
    }
}

/// Every single balance is bounded by the ledger total.
pub proof fn lemma_balance_le_total(accs: Seq<Account>, k: int)
    requires
        0 <= k < accs.len(),
    ensures
        accs[k].balance <= spec_total(accs),
    decreases accs.len(),
{
    if k == accs.len() - 1 {
        lemma_total_nonneg(accs.drop_last());
    } else {
        lemma_balance_le_total(accs.drop_last(), k);
    }
}

/// Under distinct addresses the chosen index is the found one.
pub proof fn lemma_unique_idx(accs: Seq<Account>, addr: Seq<char>, i: int)
    requires
        unique_addresses(accs),
        0 <= i < accs.len(),
        accs[i].address@ == addr,
    ensures
        spec_has(accs, addr),
        spec_idx(accs, addr) == i,
{
    assert(spec_has(accs, addr));
    let j = spec_idx(accs, addr);
    if j != i {
        if j < i {
            assert(accs[j].address@ != accs[i].address@);
        } else {
            assert(accs[i].address@ != accs[j].address@);
        }
    }
}

/// Conservation: a successful transfer leaves the sum of balances as it
/// was, wherever the money moved.
pub proof fn lemma_transfer_conserves_total(
    accs0: Seq<Account>,
    accs1: Seq<Account>,
    from: Seq<char>,
    to: Seq<char>,
    amount: u64,
)
    requires
        spec_has(accs0, from),
        0 <= spec_idx(accs0, from) < accs0.len(),
        accs0[spec_idx(accs0, from)].balance >= amount,
        spec_total(accs0) <= u64::MAX,
        transfer_post(accs0, accs1, from, to, amount),
    ensures
        spec_total(accs1) == spec_total(accs0),
{
    let i = spec_idx(accs0, from);
    let d = spec_debit(accs0, from, amount);
    lemma_total_update(accs0, i, d[i]);
    if spec_has(d, to) {
        let j = spec_idx(d, to);
        lemma_balance_le_total(d, j);
        lemma_total_update(d, j, accs1[j]);
    } else {
        assert(accs1 =~= d.push(accs1.last()));
        lemma_total_push(d, accs1.last());
    }
}

/// Two ledgers that agree on every account away from `addr` also agree on
/// every balance and nonce away from `addr`.
proof fn lemma_same_except(accs0: Seq<Account>, accs1: Seq<Account>, addr: Seq<char>)
    requires
        unique_addresses(accs0),
        unique_addresses(accs1),
        forall|k: int|
            0 <= k < accs0.len() && accs0[k].address@ != addr ==> 0 <= k < accs1.len()
                && accs1[k] == accs0[k],
        forall|k: int|
            0 <= k < accs1.len() && accs1[k].address@ != addr ==> 0 <= k < accs0.len()
                && accs0[k] == accs1[k],
    ensures
        forall|a: Seq<char>|
            a != addr ==> spec_balance(accs1, a) == spec_balance(accs0, a),
        forall|a: Seq<char>|
            a != addr ==> spec_nonce(accs1, a) == spec_nonce(accs0, a),
{
    assert forall|a: Seq<char>| a != addr implies spec_balance(accs1, a) == spec_balance(
        accs0,
        a,
    ) && spec_nonce(accs1, a) == spec_nonce(accs0, a) by {
        if spec_has(accs0, a) {
            let k = spec_idx(accs0, a);
            lemma_unique_idx(accs0, a, k);
            assert(accs1[k] == accs0[k]);
            lemma_unique_idx(accs1, a, k);
        } else if spec_has(accs1, a) {
            let k = spec_idx(accs1, a);
            lemma_unique_idx(accs1, a, k);
            assert(accs0[k] == accs1[k]);
            lemma_unique_idx(accs0, a, k);
        }
    }
}

pub struct WorldState {
    accounts: Vec<Account>,
}

impl WorldState {
    pub closed spec fn accs(&self) -> Seq<Account> {
        self.accounts@
    }

    /// Well-formedness: distinct addresses, and a total that fits in a
    /// machine word.
    pub open spec fn wf(&self) -> bool {
        unique_addresses(self.accs()) && spec_total(self.accs()) <= u64::MAX
    }

    /// An empty ledger.
    pub fn new() -> (s: Self)
        ensures
            s.wf(),
            s.accs() == Seq::<Account>::empty(),
    {
        WorldState { accounts: Vec::new() }
    }

    /// The index of the account with the given address, if any.
    fn find(&self, address: &str) -> (r: Option<usize>)
        ensures
            match r {
                Some(i) => i < self.accs().len() && self.accs()[i as int].address@ == address@,
                None => !spec_has(self.accs(), address@),
            },
    {
        let needle = address.to_owned();
        let mut i: usize = 0;
        while i < self.accounts.len()
            invariant
                i <= self.accounts@.len(),
                needle@ == address@,
                forall|j: int| 0 <= j < i ==> self.accounts@[j].address@ != address@,
            decreases self.accounts@.len() - i,
        {
            if self.accounts[i].address == needle {
                return Some(i);
            }
            i = i + 1;
        }
        None
    }

    /// Creates the account at `address` fresh — the given balance, a
    /// zero nonce, no code and no storage — replacing any account already
    /// there. Every account at another address is kept whole.
    pub fn create_account(&mut self, address: String, balance: u64)
        requires
            old(self).wf(),
            spec_total(old(self).accs()) - (if spec_has(old(self).accs(), address@) {
                old(self).accs()[spec_idx(old(self).accs(), address@)].balance as int
            } else {
                0
            }) + balance <= u64::MAX,
        ensures
            final(self).wf(),
            spec_balance(final(self).accs(), address@) == Some(balance),
            spec_nonce(final(self).accs(), address@) == 0u64,
            ({
                let i = spec_idx(final(self).accs(), address@);
                &&& final(self).accs()[i].address == address
                &&& final(self).accs()[i].code@ == Seq::<u8>::empty()
                &&& final(self).accs()[i].storage@ == Seq::<(String, String)>::empty()
            }),
            spec_has(old(self).accs(), address@) ==> {
                let i = spec_idx(old(self).accs(), address@);
                &&& final(self).accs().len() == old(self).accs().len()
                &&& spec_idx(final(self).accs(), address@) == i
                &&& forall|j: int|
                    0 <= j < old(self).accs().len() && j != i ==> final(self).accs()[j] == old(
                        self,
                    ).accs()[j]
            },
            !spec_has(old(self).accs(), address@) ==> {
                &&& final(self).accs().len() == old(self).accs().len() + 1
                &&& final(self).accs().drop_last() == old(self).accs()
                &&& spec_idx(final(self).accs(), address@) == old(self).accs().len()
            },
            forall|a: Seq<char>|
                a != address@ ==> spec_balance(final(self).accs(), a) == spec_balance(
                    old(self).accs(),
                    a,
                ),
            forall|a: Seq<char>|
                a != address@ ==> spec_nonce(final(self).accs(), a) == spec_nonce(
                    old(self).accs(),
                    a,
                ),
            spec_total(final(self).accs()) == spec_total(old(self).accs()) - (if spec_has(
                old(self).accs(),
                address@,
            ) {
                old(self).accs()[spec_idx(old(self).accs(), address@)].balance as int
            } else {
                0
            }) + balance,
    {
        let ghost accs0 = self.accounts@;
        let ghost addr = address@;
        let found = self.find(address.as_str());
        match found {
            Some(i) => {
                proof {
                    lemma_unique_idx(accs0, addr, i as int);
                }
                let _old_acc = self.accounts.remove(i);
                let acc = Account::new(address, balance);
                self.accounts.insert(i, acc);
                proof {
                    assert(self.accounts@ =~= accs0.update(i as int, self.accounts@[i as int]));
                    lemma_total_update(accs0, i as int, self.accounts@[i as int]);
                    assert(unique_addresses(self.accounts@));
                    lemma_unique_idx(self.accounts@, addr, i as int);
                    lemma_same_except(accs0, self.accounts@, addr);
                }
            },
            None => {
                let acc = Account::new(address, balance);
                self.accounts.push(acc);
                proof {
                    lemma_total_push(accs0, self.accounts@.last());
                    assert forall|i: int, j: int|
                        0 <= i < j < self.accounts@.len() implies self.accounts@[i].address@
                        != self.accounts@[j].address@ by {
                        if j == self.accounts@.len() - 1 {
                            assert(!spec_has(accs0, addr));
                            assert(accs0[i].address@ != addr);
                        }
                    }
                    lemma_unique_idx(self.accounts@, addr, accs0.len() as int);
                    lemma_same_except(accs0, self.accounts@, addr);
                }
            },
        }
    }

    /// The current balance of `address`, or `None` when unknown.
    pub fn get_balance(&self, address: &str) -> (r: Option<u64>)
        requires
            self.wf(),
        ensures
            r == spec_balance(self.accs(), address@),
    {
        match self.find(address) {
            Some(i) => {
                proof {
                    lemma_unique_idx(self.accs(), address@, i as int);
                }
                Some(self.accounts[i].balance)
            },
            None => None,
        }
    }

    /// The nonce of `address`, defaulting to 0 when unknown.
    pub fn get_nonce(&self, address: &str) -> (r: u64)
        requires
            self.wf(),
        ensures
            r == spec_nonce(self.accs(), address@),
    {
        match self.find(address) {
            Some(i) => {
                proof {
                    lemma_unique_idx(self.accs(), address@, i as int);
                }
                self.accounts[i].nonce
            },
            None => 0,
        }
    }

    /// Atomically debits `from` and credits `to`. Fails with
    /// `UnknownSender` when `from` has no account and with
    /// `InsufficientBalance` when its balance is short; on failure the
    /// ledger is unchanged. On success the sender's nonce is bumped and
    /// the recipient is created with the credited balance when absent.
    /// The sum of all balances never changes.
    pub fn transfer(&mut self, from: &str, to: &str, amount: u64) -> (r: Result<(), LedgerError>)
        requires
            old(self).wf(),
        ensures
            final(self).wf(),
            r is Ok <==> (spec_has(old(self).accs(), from@) && old(self).accs()[spec_idx(
                old(self).accs(),
                from@,
            )].balance >= amount),
            r == Result::<(), LedgerError>::Err(LedgerError::UnknownSender) <==> !spec_has(
                old(self).accs(),
                from@,
            ),
            r == Result::<(), LedgerError>::Err(LedgerError::InsufficientBalance) <==> (spec_has(
                old(self).accs(),
                from@,
            ) && old(self).accs()[spec_idx(old(self).accs(), from@)].balance < amount),
            r is Err ==> final(self).accs() == old(self).accs(),
            r is Ok ==> transfer_post(old(self).accs(), final(self).accs(), from@, to@, amount),
            spec_total(final(self).accs()) == spec_total(old(self).accs()),
    {
        let ghost accs0 = self.accounts@;
        let i = match self.find(from) {
            None => {
                return Err(LedgerError::UnknownSender);
            },
            Some(i) => i,
        };
        proof {
            lemma_unique_idx(accs0, from@, i as int);
        }
        if self.accounts[i].balance < amount {
            return Err(LedgerError::InsufficientBalance);
        }
        // Debit the sender and bump its nonce.
        let mut sender = self.accounts.remove(i);
        sender.balance = sender.balance - amount;
        sender.nonce = if sender.nonce < u64::MAX {
            sender.nonce + 1
        } else {
            sender.nonce
        };
        self.accounts.insert(i, sender);
        let ghost debited = self.accounts@;
        proof {
            assert(debited =~= spec_debit(accs0, from@, amount));
            lemma_total_update(accs0, i as int, debited[i as int]);
            lemma_total_nonneg(accs0.update(i as int, debited[i as int]));
            assert(unique_addresses(debited));
        }
        // Credit the recipient, creating it when absent.
        match self.find(to) {
            Some(j) => {
                proof {
                    lemma_unique_idx(debited, to@, j as int);
                    lemma_balance_le_total(debited, j as int);
                    assert(spec_total(debited) == spec_total(accs0) - amount);
                }
                let mut rec = self.accounts.remove(j);
                rec.balance = rec.balance + amount;
                self.accounts.insert(j, rec);
                proof {
                    assert(self.accounts@ =~= debited.update(j as int, self.accounts@[j as int]));
                    lemma_total_update(debited, j as int, self.accounts@[j as int]);
                    assert(unique_addresses(self.accounts@));
                    assert(transfer_post(accs0, self.accounts@, from@, to@, amount));
                }
            },
            None => {
                let mut addr_copy = String::new();
                addr_copy.append(to);
                let acc = Account::new(addr_copy, amount);
                self.accounts.push(acc);
                proof {
                    lemma_total_push(debited, self.accounts@.last());
                    assert forall|p: int, q: int|
                        0 <= p < q < self.accounts@.len() implies self.accounts@[p].address@
                        != self.accounts@[q].address@ by {
                        if q == self.accounts@.len() - 1 {
                            assert(!spec_has(debited, to@));
                            assert(debited[p].address@ != to@);
                        }
                    }
                    assert(self.accounts@.drop_last() =~= debited);
                    assert(transfer_post(accs0, self.accounts@, from@, to@, amount));
                }
            },
        }
        Ok(())
    }
}

} // verus!
