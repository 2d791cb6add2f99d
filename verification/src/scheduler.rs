//! Conflict-aware parallel scheduling: pairwise read/write conflict
//! detection over declared key sets, and a deterministic greedy
//! partition of a batch into ordered, internally conflict-free groups.

use vstd::prelude::*;
use vstd::seq_lib::lemma_multiset_commutative;
use vstd::string::StringExecFns;
use vstd::multiset::Multiset;

verus! {

pub struct Transaction {
    pub hash: String,
    pub from: String,
    pub to: String,
    pub value: u64,
    pub data: Vec<u8>,
    pub reads: Vec<String>,
    pub writes: Vec<String>,
    pub executed: bool,
}

/// Whether the two key lists share a key (compared by contents).
pub open spec fn overlaps(x: Seq<String>, y: Seq<String>) -> bool {
    exists|i: int, j: int| 0 <= i < x.len() && 0 <= j < y.len() && x[i]@ == y[j]@
}

/// The conflict rule: a write-write, read-write or write-read overlap.
pub open spec fn spec_conflict(a: Transaction, b: Transaction) -> bool {
    ||| overlaps(a.writes@, b.writes@)
    ||| overlaps(a.reads@, b.writes@)
    ||| overlaps(a.writes@, b.reads@)
}

/// Whether any key the transaction touches is already claimed.
pub open spec fn tx_blocked(t: Transaction, claimed: Seq<String>) -> bool {
    overlaps(t.reads@, claimed) || overlaps(t.writes@, claimed)
}

/// One greedy pass over the remaining transactions: in order, each
/// transaction whose keys are all unclaimed joins the group and claims
/// its keys; the others are deferred, keeping their order.
pub open spec fn spec_pass(rem: Seq<Transaction>, claimed: Seq<String>) -> (Seq<Transaction>, Seq<Transaction>)
    decreases rem.len(),
{
    if rem.len() == 0 {
        (Seq::<Transaction>::empty(), Seq::<Transaction>::empty())
    } else {
        let t = rem.first();
        if !tx_blocked(t, claimed) {
            let r = spec_pass(rem.drop_first(), claimed + t.reads@ + t.writes@);
            (seq![t] + r.0, r.1)
        } else {
            let r = spec_pass(rem.drop_first(), claimed);
            (r.0, seq![t] + r.1)
        }
    }
}

/// The full deterministic greedy partition: one group per pass, repeated
/// on the deferred transactions until none remain. (The guard on the
/// recursion is defensive; a pass over a non-empty batch always takes at
/// least its first transaction.)
pub open spec fn spec_schedule(rem: Seq<Transaction>) -> Seq<Seq<Transaction>>
    decreases rem.len(),
{
    if rem.len() == 0 {
        Seq::<Seq<Transaction>>::empty()
    } else {
        let p = spec_pass(rem, Seq::<String>::empty());
        if p.1.len() < rem.len() {
            seq![p.0] + spec_schedule(p.1)
        } else {
            seq![p.0]
        }
    }
}

/// A pass is a permutation-free split: group and deferred together hold
/// exactly the remaining transactions.
pub proof fn lemma_pass_split(rem: Seq<Transaction>, claimed: Seq<String>)
    ensures
        spec_pass(rem, claimed).0.len() + spec_pass(rem, claimed).1.len() == rem.len(),
        spec_pass(rem, claimed).0.to_multiset().add(spec_pass(rem, claimed).1.to_multiset())
            =~= rem.to_multiset(),
    decreases rem.len(),
{
    broadcast use vstd::seq_lib::group_to_multiset_ensures;
    broadcast use vstd::multiset::group_multiset_axioms;

    if rem.len() == 0 {
        assert(spec_pass(rem, claimed).0.to_multiset().add(
            spec_pass(rem, claimed).1.to_multiset(),
        ) =~= rem.to_multiset());
    } else {
        let t = rem.first();
        assert(rem =~= seq![t] + rem.drop_first());
        lemma_multiset_commutative(seq![t], rem.drop_first());
        assert(seq![t].to_multiset() =~= Multiset::<Transaction>::empty().insert(t));
        if !tx_blocked(t, claimed) {
            let c2 = claimed + t.reads@ + t.writes@;
            lemma_pass_split(rem.drop_first(), c2);
            let r = spec_pass(rem.drop_first(), c2);
            lemma_multiset_commutative(seq![t], r.0);
            assert(spec_pass(rem, claimed).0 == seq![t] + r.0);
            assert(spec_pass(rem, claimed).1 == r.1);
            let a = seq![t].to_multiset();
            assert(r.0.to_multiset().add(r.1.to_multiset()) == rem.drop_first().to_multiset());
            assert(rem.to_multiset() == a.add(rem.drop_first().to_multiset()));
            assert((seq![t] + r.0).to_multiset() == a.add(r.0.to_multiset()));
            assert(a.add(r.0.to_multiset()).add(r.1.to_multiset()) =~= a.add(
                rem.drop_first().to_multiset(),
            ));
        } else {
            lemma_pass_split(rem.drop_first(), claimed);
            let r = spec_pass(rem.drop_first(), claimed);
            lemma_multiset_commutative(seq![t], r.1);
            assert(spec_pass(rem, claimed).0 == r.0);
            assert(spec_pass(rem, claimed).1 == seq![t] + r.1);
            assert(spec_pass(rem, claimed).0.to_multiset().add(
                spec_pass(rem, claimed).1.to_multiset(),
            ) =~= rem.to_multiset());
        }
    }
}

/// A pass over a non-empty batch with nothing claimed takes its first
/// transaction, so the deferred part strictly shrinks.
pub proof fn lemma_pass_progress(rem: Seq<Transaction>)
    requires
        rem.len() > 0,
    ensures
        spec_pass(rem, Seq::<String>::empty()).0.len() >= 1,
        spec_pass(rem, Seq::<String>::empty()).1.len() < rem.len(),
{
    let t = rem.first();
    assert(!tx_blocked(t, Seq::<String>::empty()));
    lemma_pass_split(rem, Seq::<String>::empty());
}

/// Partition completeness: the groups of the schedule hold, as a
/// multiset, exactly the transactions of the batch — nothing lost,
/// nothing duplicated — so the groups are also pairwise disjoint.
pub proof fn lemma_partition_complete(txs: Seq<Transaction>)
    ensures
        spec_schedule(txs).flatten().to_multiset() =~= txs.to_multiset(),
    decreases txs.len(),
{
    broadcast use vstd::seq_lib::group_to_multiset_ensures;
    broadcast use vstd::multiset::group_multiset_axioms;

    if txs.len() == 0 {
        assert(spec_schedule(txs).flatten().to_multiset() =~= txs.to_multiset());
    } else {
        let p = spec_pass(txs, Seq::<String>::empty());
        lemma_pass_progress(txs);
        lemma_pass_split(txs, Seq::<String>::empty());
        lemma_partition_complete(p.1);
        assert(spec_schedule(txs) =~= seq![p.0] + spec_schedule(p.1));
        assert((seq![p.0] + spec_schedule(p.1)).flatten() =~= p.0 + spec_schedule(p.1).flatten())
            by {
            assert(seq![p.0].flatten() =~= p.0) by {
                seq![p.0].lemma_flatten_one_element();
            }
            vstd::seq_lib::lemma_flatten_concat(seq![p.0], spec_schedule(p.1));
        }
        lemma_multiset_commutative(p.0, spec_schedule(p.1).flatten());
        assert(spec_schedule(txs).flatten().to_multiset() =~= txs.to_multiset());
    }
}

/// A claimed key stays claimed: a transaction unblocked under a larger
/// claim set is unblocked under a smaller one.
proof fn lemma_blocked_monotone(t: Transaction, c1: Seq<String>, c2: Seq<String>)
    requires
        tx_blocked(t, c1),
    ensures
        tx_blocked(t, c1 + c2),
{
    if overlaps(t.reads@, c1) {
        let (i, j) = choose|i: int, j: int|
            0 <= i < t.reads@.len() && 0 <= j < c1.len() && t.reads@[i]@ == c1[j]@;
        assert((c1 + c2)[j]@ == c1[j]@);
        assert(overlaps(t.reads@, c1 + c2));
    } else {
        let (i, j) = choose|i: int, j: int|
            0 <= i < t.writes@.len() && 0 <= j < c1.len() && t.writes@[i]@ == c1[j]@;
        assert((c1 + c2)[j]@ == c1[j]@);
        assert(overlaps(t.writes@, c1 + c2));
    }
}

/// Overlap is symmetric.
proof fn lemma_overlaps_sym(x: Seq<String>, y: Seq<String>)
    requires
        overlaps(x, y),
    ensures
        overlaps(y, x),
{
    let (i, j) = choose|i: int, j: int|
        0 <= i < x.len() && 0 <= j < y.len() && x[i]@ == y[j]@;
    assert(y[j]@ == x[i]@);
}

/// The conflict relation is symmetric: a write-write overlap reads the
/// same both ways, and the read-write and write-read arms swap.
pub proof fn lemma_conflict_symmetric(a: Transaction, b: Transaction)
    ensures
        spec_conflict(a, b) == spec_conflict(b, a),
{
    if spec_conflict(a, b) {
        if overlaps(a.writes@, b.writes@) {
            lemma_overlaps_sym(a.writes@, b.writes@);
        } else if overlaps(a.reads@, b.writes@) {
            lemma_overlaps_sym(a.reads@, b.writes@);
        } else {
            lemma_overlaps_sym(a.writes@, b.reads@);
        }
    }
    if spec_conflict(b, a) {
        if overlaps(b.writes@, a.writes@) {
            lemma_overlaps_sym(b.writes@, a.writes@);
        } else if overlaps(b.reads@, a.writes@) {
            lemma_overlaps_sym(b.reads@, a.writes@);
        } else {
            lemma_overlaps_sym(b.writes@, a.reads@);
        }
    }
}

/// A transaction whose keys avoid the claims made by `t` cannot conflict
/// with `t`, in either direction.
proof fn lemma_unclaimed_no_conflict(t: Transaction, u: Transaction, claimed: Seq<String>)
    requires
        !tx_blocked(u, claimed + t.reads@ + t.writes@),
    ensures
        !spec_conflict(t, u),
        !spec_conflict(u, t),
{
    let c2 = claimed + t.reads@ + t.writes@;
    assert forall|i: int, j: int|
        0 <= i < u.reads@.len() && 0 <= j < t.writes@.len() implies u.reads@[i]@ != t.writes@[j]@ by {
        let k = claimed.len() + t.reads@.len() + j;
        assert(c2[k]@ == t.writes@[j]@);
        if u.reads@[i]@ == t.writes@[j]@ {
            assert(overlaps(u.reads@, c2));
        }
    }
    assert forall|i: int, j: int|
        0 <= i < u.writes@.len() && 0 <= j < t.writes@.len() implies u.writes@[i]@
        != t.writes@[j]@ by {
        let k = claimed.len() + t.reads@.len() + j;
        assert(c2[k]@ == t.writes@[j]@);
        if u.writes@[i]@ == t.writes@[j]@ {
            assert(overlaps(u.writes@, c2));
        }
    }
    assert forall|i: int, j: int|
        0 <= i < u.writes@.len() && 0 <= j < t.reads@.len() implies u.writes@[i]@ != t.reads@[j]@ by {
        let k = claimed.len() + j;
        assert(c2[k]@ == t.reads@[j]@);
        if u.writes@[i]@ == t.reads@[j]@ {
            assert(overlaps(u.writes@, c2));
        }
    }
    if overlaps(t.writes@, u.writes@) {
        lemma_overlaps_sym(t.writes@, u.writes@);
        assert(false);
    }
    if overlaps(t.reads@, u.writes@) {
        lemma_overlaps_sym(t.reads@, u.writes@);
        assert(false);
    }
    if overlaps(t.writes@, u.reads@) {
        lemma_overlaps_sym(t.writes@, u.reads@);
        assert(false);
    }
    if overlaps(u.writes@, t.writes@) {
        assert(false);
    }
    if overlaps(u.reads@, t.writes@) {
        assert(false);
    }
    if overlaps(u.writes@, t.reads@) {
        assert(false);
    }
}

/// Every member of a pass's group is unblocked by the claims the pass
/// started with, and the group is internally conflict-free.
proof fn lemma_pass_group_ok(rem: Seq<Transaction>, claimed: Seq<String>)
    ensures
        forall|k: int|
            0 <= k < spec_pass(rem, claimed).0.len() ==> !tx_blocked(
                #[trigger] spec_pass(rem, claimed).0[k],
                claimed,
            ),
        forall|i: int, j: int|
            0 <= i < j < spec_pass(rem, claimed).0.len() ==> !spec_conflict(
                spec_pass(rem, claimed).0[i],
                spec_pass(rem, claimed).0[j],
            ),
    decreases rem.len(),
{
    if rem.len() > 0 {
        let t = rem.first();
        if !tx_blocked(t, claimed) {
            let c2 = claimed + t.reads@ + t.writes@;
            lemma_pass_group_ok(rem.drop_first(), c2);
            let g = spec_pass(rem, claimed).0;
            let g2 = spec_pass(rem.drop_first(), c2).0;
            assert(g =~= seq![t] + g2);
            assert forall|k: int| 0 <= k < g.len() implies !tx_blocked(#[trigger] g[k], claimed) by {
                if k == 0 {
                    assert(g[0] == t);
                } else {
                    assert(g[k] == g2[k - 1]);
                    assert(!tx_blocked(g2[k - 1], c2));
                    if tx_blocked(g2[k - 1], claimed) {
                        lemma_blocked_monotone(g2[k - 1], claimed, t.reads@ + t.writes@);
                        assert(claimed + (t.reads@ + t.writes@) =~= c2);
                    }
                }
            }
            assert forall|i: int, j: int|
                0 <= i < j < g.len() implies !spec_conflict(g[i], g[j]) by {
                if i == 0 {
                    assert(g[j] == g2[j - 1]);
                    assert(!tx_blocked(g2[j - 1], c2));
                    lemma_unclaimed_no_conflict(t, g2[j - 1], claimed);
                } else {
                    assert(g[i] == g2[i - 1] && g[j] == g2[j - 1]);
                }
            }
        } else {
            lemma_pass_group_ok(rem.drop_first(), claimed);
            assert(spec_pass(rem, claimed).0 =~= spec_pass(rem.drop_first(), claimed).0);
        }
    }
}

/// Conflict-freedom: within any group of the schedule, every two
/// transactions have disjoint write/write, read/write and write/read
/// key sets.
pub proof fn lemma_groups_conflict_free(txs: Seq<Transaction>)
    ensures
        forall|g: int, i: int, j: int|
            0 <= g < spec_schedule(txs).len() && 0 <= i < j < spec_schedule(txs)[g].len()
                ==> !spec_conflict(spec_schedule(txs)[g][i], spec_schedule(txs)[g][j]),
    decreases txs.len(),
{
    if txs.len() > 0 {
        let p = spec_pass(txs, Seq::<String>::empty());
        lemma_pass_group_ok(txs, Seq::<String>::empty());
        lemma_pass_progress(txs);
        lemma_groups_conflict_free(p.1);
        assert(spec_schedule(txs) =~= seq![p.0] + spec_schedule(p.1));
        assert forall|g: int, i: int, j: int|
            0 <= g < spec_schedule(txs).len() && 0 <= i < j < spec_schedule(txs)[g].len()
                implies !spec_conflict(spec_schedule(txs)[g][i], spec_schedule(txs)[g][j]) by {
            if g == 0 {
                assert(spec_schedule(txs)[0] == p.0);
            } else {
                assert(spec_schedule(txs)[g] == spec_schedule(p.1)[g - 1]);
            }
        }
    }
}

/// Determinism: the partition is a pure function of the batch and its
/// order; identical batches schedule identically, on every run.
pub proof fn lemma_schedule_deterministic(txs1: Seq<Transaction>, txs2: Seq<Transaction>)
    requires
        txs1 == txs2,
    ensures
        spec_schedule(txs1) == spec_schedule(txs2),
{
}

fn contains_key(v: &Vec<String>, s: &String) -> (r: bool)
    ensures
        r == exists|j: int| 0 <= j < v@.len() && v@[j]@ == s@,
{
    let mut i: usize = 0;
    while i < v.len()
        invariant
            i <= v@.len(),
            forall|j: int| 0 <= j < i ==> v@[j]@ != s@,
        decreases v@.len() - i,
    {
        if v[i] == *s {
            return true;
        }
        i = i + 1;
    }
    false
}

fn any_claimed(keys: &Vec<String>, claimed: &Vec<String>) -> (r: bool)
    ensures
        r == overlaps(keys@, claimed@),
{
    let mut i: usize = 0;
    while i < keys.len()
        invariant
            i <= keys@.len(),
            forall|p: int, q: int|
                0 <= p < i && 0 <= q < claimed@.len() ==> keys@[p]@ != claimed@[q]@,
        decreases keys@.len() - i,
    {
        if contains_key(claimed, &keys[i]) {
            return true;
        }
        i = i + 1;
    }
    false
}

fn is_blocked(t: &Transaction, claimed: &Vec<String>) -> (r: bool)
    ensures
        r == tx_blocked(*t, claimed@),
{
    any_claimed(&t.reads, claimed) || any_claimed(&t.writes, claimed)
}

fn claim_keys(t: &Transaction, claimed: &mut Vec<String>)
    ensures
        final(claimed)@ =~= old(claimed)@ + t.reads@ + t.writes@,
{
    let ghost c0 = claimed@;
    let mut i: usize = 0;
    while i < t.reads.len()
        invariant
            i <= t.reads@.len(),
            claimed@ =~= c0 + t.reads@.take(i as int),
        decreases t.reads@.len() - i,
    {
        claimed.push(t.reads[i].clone());
        i = i + 1;
        proof {
            assert(claimed@ =~= c0 + t.reads@.take(i as int));
        }
    }
    proof {
        assert(t.reads@.take(t.reads@.len() as int) =~= t.reads@);
    }
    let mut j: usize = 0;
    while j < t.writes.len()
        invariant
            j <= t.writes@.len(),
            claimed@ =~= c0 + t.reads@ + t.writes@.take(j as int),
        decreases t.writes@.len() - j,
    {
        claimed.push(t.writes[j].clone());
        j = j + 1;
        proof {
            assert(claimed@ =~= c0 + t.reads@ + t.writes@.take(j as int));
        }
    }
    proof {
        assert(t.writes@.take(t.writes@.len() as int) =~= t.writes@);
    }
}

/// Partitions a batch into ordered, internally conflict-free groups by
/// deterministic greedy passes, preserving arrival order as tie-break.
pub fn group_independent_txs(txs: Vec<Transaction>) -> (groups: Vec<Vec<Transaction>>)
    ensures
        groups@.len() == spec_schedule(txs@).len(),
        forall|i: int|
            0 <= i < groups@.len() ==> (#[trigger] groups@[i])@ == spec_schedule(txs@)[i],
{
    let ghost full = spec_schedule(txs@);
    let mut groups: Vec<Vec<Transaction>> = Vec::new();
    let mut remaining = txs;
    while remaining.len() > 0
        invariant
            groups@.len() + spec_schedule(remaining@).len() == full.len(),
            forall|i: int|
                0 <= i < groups@.len() ==> (#[trigger] groups@[i])@ == full[i],
            forall|i: int|
                0 <= i < spec_schedule(remaining@).len() ==> spec_schedule(remaining@)[i]
                    == full[groups@.len() + i],
        decreases remaining@.len(),
    {
        let ghost rem0 = remaining@;
        let mut group: Vec<Transaction> = Vec::new();
        let mut deferred: Vec<Transaction> = Vec::new();
        let mut claimed: Vec<String> = Vec::new();
        while remaining.len() > 0
            invariant
                spec_pass(rem0, Seq::<String>::empty()).0 =~= group@ + spec_pass(
                    remaining@,
                    claimed@,
                ).0,
                spec_pass(rem0, Seq::<String>::empty()).1 =~= deferred@ + spec_pass(
                    remaining@,
                    claimed@,
                ).1,
                remaining@.len() <= rem0.len(),
            decreases remaining@.len(),
        {
            let ghost rem_b = remaining@;
            let ghost cl_b = claimed@;
            let t = remaining.remove(0);
            proof {
                assert(rem_b.first() == t);
                assert(remaining@ =~= rem_b.drop_first());
            }
            if !is_blocked(&t, &claimed) {
                claim_keys(&t, &mut claimed);
                group.push(t);
                proof {
                    assert(group@ + spec_pass(remaining@, claimed@).0 =~= group@.drop_last()
                        + (seq![group@.last()] + spec_pass(remaining@, claimed@).0));
                }
            } else {
                deferred.push(t);
                proof {
                    assert(deferred@ + spec_pass(remaining@, claimed@).1 =~= deferred@.drop_last()
                        + (seq![deferred@.last()] + spec_pass(remaining@, claimed@).1));
                }
            }
        }
        proof {
            assert(group@ =~= spec_pass(rem0, Seq::<String>::empty()).0);
            assert(deferred@ =~= spec_pass(rem0, Seq::<String>::empty()).1);
            lemma_pass_progress(rem0);
            assert(spec_schedule(rem0) =~= seq![group@] + spec_schedule(deferred@));
        }
        let ghost gcount = groups@.len() as int;
        groups.push(group);
        remaining = deferred;
        proof {
            assert forall|i: int|
                0 <= i < groups@.len() implies (#[trigger] groups@[i])@ == full[i] by {
                if i < gcount {
                } else {
                    assert(groups@[i]@ == spec_schedule(rem0)[0]);
                }
            }
            assert forall|i: int|
                0 <= i < spec_schedule(remaining@).len() implies spec_schedule(remaining@)[i]
                == full[groups@.len() + i] by {
                assert(spec_schedule(rem0)[i + 1] == spec_schedule(remaining@)[i]);
                assert(spec_schedule(rem0)[i + 1] == full[gcount + i + 1]);
            }
        }
    }
    groups
}

} // verus!

use vstd::prelude::*;

verus! {

/// Whether some entry of the dependency graph carries the key `k`.
pub open spec fn graph_has(g: Seq<(String, Vec<String>)>, k: Seq<char>) -> bool {
    exists|i: int| 0 <= i < g.len() && g[i].0@ == k
}

/// Whether the dependency graph records an edge: some entry keyed `k`
/// whose dependency list holds `d`.
pub open spec fn graph_edge(g: Seq<(String, Vec<String>)>, k: Seq<char>, d: Seq<char>) -> bool {
    exists|i: int, j: int|
        0 <= i < g.len() && g[i].0@ == k && 0 <= j < g[i].1@.len() && g[i].1@[j]@ == d
}

/// Whether `k` is the hash of some transaction of the batch.
pub open spec fn is_batch_hash(txs: Seq<Transaction>, k: Seq<char>) -> bool {
    exists|p: int| 0 <= p < txs.len() && txs[p].hash@ == k
}

/// Whether `k` and `d` are the hashes of a conflicting, distinct-hash
/// pair of the batch.
pub open spec fn conflicting_pair(txs: Seq<Transaction>, k: Seq<char>, d: Seq<char>) -> bool {
    exists|p: int, q: int|
        0 <= p < txs.len() && 0 <= q < txs.len() && txs[p].hash@ == k && txs[q].hash@ == d
            && txs[p].hash@ != txs[q].hash@ && spec_conflict(txs[p], txs[q])
}

/// The index of the first graph entry carrying the key `k` (meaningful
/// when `graph_has` holds).
pub open spec fn first_key_idx(g: Seq<(String, Vec<String>)>, k: Seq<char>) -> int
    decreases g.len(),
{
    if g.len() == 0 {
        0
    } else if g[0].0@ == k {
        0
    } else {
        1 + first_key_idx(g.drop_first(), k)
    }
}

proof fn lemma_first_key_idx(g: Seq<(String, Vec<String>)>, k: Seq<char>, i: int)
    requires
        0 <= i < g.len(),
        g[i].0@ == k,
        forall|j: int| 0 <= j < i ==> g[j].0@ != k,
    ensures
        first_key_idx(g, k) == i,
    decreases i,
{
    if i > 0 {
        lemma_first_key_idx(g.drop_first(), k, i - 1);
    }
}

pub struct ConflictDetector {
    pub dependency_graph: Vec<(String, Vec<String>)>,
    pub conflicts_detected: u64,
}

/// A counter bumped by one, stopping at the numeric ceiling.
pub open spec fn bump_counter(n: u64) -> u64 {
    if n < u64::MAX {
        (n + 1) as u64
    } else {
        n
    }
}

impl ConflictDetector {
    /// An empty graph and a zero conflict counter.
    pub fn new() -> (d: Self)
        ensures
            d.dependency_graph@ == Seq::<(String, Vec<String>)>::empty(),
            d.conflicts_detected == 0,
    {
        ConflictDetector { dependency_graph: Vec::new(), conflicts_detected: 0 }
    }

    /// Records that `tx1` depends on `tx2`: appended to `tx1`'s entry
    /// when one exists (the first with that key), in a fresh entry
    /// otherwise. The conflict counter is untouched.
    pub fn add_dependency(&mut self, tx1: String, tx2: String)
        ensures
            final(self).conflicts_detected == old(self).conflicts_detected,
            graph_has(old(self).dependency_graph@, tx1@) ==> {
                let i = first_key_idx(old(self).dependency_graph@, tx1@);
                &&& 0 <= i < old(self).dependency_graph@.len()
                &&& old(self).dependency_graph@[i].0@ == tx1@
                &&& final(self).dependency_graph@.len() == old(self).dependency_graph@.len()
                &&& final(self).dependency_graph@[i].0 == old(self).dependency_graph@[i].0
                &&& final(self).dependency_graph@[i].1@ == old(self).dependency_graph@[i].1@.push(tx2)
                &&& forall|j: int|
                    0 <= j < old(self).dependency_graph@.len() && j != i
                        ==> final(self).dependency_graph@[j] == old(self).dependency_graph@[j]
            },
            !graph_has(old(self).dependency_graph@, tx1@) ==> {
                &&& final(self).dependency_graph@.len() == old(self).dependency_graph@.len() + 1
                &&& final(self).dependency_graph@.drop_last() == old(self).dependency_graph@
                &&& final(self).dependency_graph@.last().0 == tx1
                &&& final(self).dependency_graph@.last().1@ == seq![tx2]
            },
    {
        let ghost g0 = self.dependency_graph@;
        let mut i: usize = 0;
        while i < self.dependency_graph.len()
            invariant
                i <= g0.len(),
                g0 == old(self).dependency_graph@,
                self.dependency_graph@ == g0,
                self.conflicts_detected == old(self).conflicts_detected,
                forall|j: int| 0 <= j < i ==> g0[j].0@ != tx1@,
            decreases g0.len() - i,
        {
            if self.dependency_graph[i].0 == tx1 {
                let ghost wi = i as int;
                let (key, mut deps) = self.dependency_graph.remove(i);
                let ghost old_pair = g0[wi];
                deps.push(tx2);
                self.dependency_graph.insert(i, (key, deps));
                proof {
                    assert(self.dependency_graph@ =~= g0.update(
                        wi,
                        self.dependency_graph@[wi],
                    ));
                    assert(self.dependency_graph@[wi].0 == old_pair.0);
                    assert(self.dependency_graph@[wi].1@ =~= old_pair.1@.push(tx2));
                    assert(forall|j: int|
                        0 <= j < g0.len() && j != wi ==> self.dependency_graph@[j] == g0[j]);
                    assert(g0[wi].0@ == tx1@);
                    lemma_first_key_idx(g0, tx1@, wi);
                }
                return;
            }
            i = i + 1;
        }
        let mut deps: Vec<String> = Vec::new();
        deps.push(tx2);
        proof {
            assert(deps@ =~= seq![tx2]);
        }
        self.dependency_graph.push((tx1, deps));
        proof {
            assert(!graph_has(g0, tx1@));
            assert(self.dependency_graph@.drop_last() =~= g0);
            assert(self.dependency_graph@.last().1@ =~= seq![tx2]);
        }
    }
}

/// How many of the transactions in `txs` the transaction `t` conflicts
/// with, transactions carrying `t`'s own hash not counted.
pub open spec fn row_count(t: Transaction, txs: Seq<Transaction>) -> int
    decreases txs.len(),
{
    if txs.len() == 0 {
        0
    } else {
        row_count(t, txs.drop_last()) + (if t.hash@ != txs.last().hash@ && spec_conflict(
            t,
            txs.last(),
        ) {
            1int
        } else {
            0int
        })
    }
}

/// The number of ordered, hash-distinct, conflicting pairs among the
/// first `k` rows of the batch.
pub open spec fn pair_count_upto(txs: Seq<Transaction>, k: int) -> int
    decreases k,
{
    if k <= 0 {
        0
    } else {
        pair_count_upto(txs, k - 1) + row_count(txs[k - 1], txs)
    }
}

/// A counter raised by `n`, stopping at the numeric ceiling.
pub open spec fn saturating_raise(c: u64, n: int) -> int {
    vstd::math::min(c + n, u64::MAX as int)
}

pub struct ExecutionBatch {
    pub batch_id: u64,
    pub parallel_groups: Vec<Vec<Transaction>>,
    pub total_txs: usize,
}

pub struct ExecutionResult {
    pub total_txs: usize,
    pub conflicts_detected: u64,
}

/// The combined length of a schedule's groups.
pub open spec fn sum_lens(gs: Seq<Seq<Transaction>>) -> int
    decreases gs.len(),
{
    if gs.len() == 0 {
        0
    } else {
        sum_lens(gs.drop_last()) + gs.last().len()
    }
}

proof fn lemma_sum_lens_flatten(gs: Seq<Seq<Transaction>>)
    ensures
        sum_lens(gs) == gs.flatten().len(),
    decreases gs.len(),
{
    if gs.len() > 0 {
        lemma_sum_lens_flatten(gs.drop_last());
        assert(gs =~= gs.drop_last().push(gs.last()));
        gs.drop_last().lemma_flatten_push(gs.last());
    }
}

/// The schedule of a batch holds exactly as many transactions as the
/// batch.
pub proof fn lemma_schedule_len(txs: Seq<Transaction>)
    ensures
        sum_lens(spec_schedule(txs)) == txs.len(),
{
    broadcast use vstd::seq_lib::group_to_multiset_ensures;

    lemma_partition_complete(txs);
    lemma_sum_lens_flatten(spec_schedule(txs));
    assert(spec_schedule(txs).flatten().to_multiset().len() == txs.to_multiset().len());
}

pub struct ParallelExecutionEngine {
    pub threads: usize,
    pub gpu_enabled: bool,
    pub executed_txs: Vec<Transaction>,
    pub conflict_detector: ConflictDetector,
}

fn overlaps_exec(x: &Vec<String>, y: &Vec<String>) -> (r: bool)
    ensures
        r == overlaps(x@, y@),
{
    let mut i: usize = 0;
    while i < x.len()
        invariant
            i <= x@.len(),
            forall|p: int, q: int| 0 <= p < i && 0 <= q < y@.len() ==> x@[p]@ != y@[q]@,
        decreases x@.len() - i,
    {
        if contains_key(y, &x[i]) {
            return true;
        }
        i = i + 1;
    }
    false
}

impl ParallelExecutionEngine {
    /// A fresh engine with the given worker count; nothing executed yet.
    pub fn new(threads: usize, gpu_enabled: bool) -> (e: Self)
        ensures
            e.threads == threads,
            e.gpu_enabled == gpu_enabled,
            e.executed_txs@ == Seq::<Transaction>::empty(),
            e.conflict_detector.dependency_graph@ == Seq::<(String, Vec<String>)>::empty(),
            e.conflict_detector.conflicts_detected == 0,
    {
        ParallelExecutionEngine {
            threads,
            gpu_enabled,
            executed_txs: Vec::new(),
            conflict_detector: ConflictDetector::new(),
        }
    }

    /// Whether the two transactions conflict under the write-write,
    /// read-write or write-read rule; a found conflict bumps the
    /// observability counter.
    fn detect_conflict(&mut self, tx1: &Transaction, tx2: &Transaction) -> (r: bool)
        ensures
            r == spec_conflict(*tx1, *tx2),
            final(self).conflicts_detected() == (if r {
                bump_counter(old(self).conflicts_detected())
            } else {
                old(self).conflicts_detected()
            }),
            final(self).conflict_detector.dependency_graph@ == old(self).conflict_detector.dependency_graph@,
            final(self).threads == old(self).threads,
            final(self).gpu_enabled == old(self).gpu_enabled,
            final(self).executed_txs@ == old(self).executed_txs@,
    {
        if overlaps_exec(&tx1.writes, &tx2.writes) {
            self.bump();
            return true;
        }
        if overlaps_exec(&tx1.reads, &tx2.writes) {
            self.bump();
            return true;
        }
        if overlaps_exec(&tx1.writes, &tx2.reads) {
            self.bump();
            return true;
        }
        false
    }

    pub open spec fn conflicts_detected(&self) -> u64 {
        self.conflict_detector.conflicts_detected
    }

    fn bump(&mut self)
        ensures
            final(self).conflicts_detected() == bump_counter(old(self).conflicts_detected()),
            final(self).conflict_detector.dependency_graph@ == old(self).conflict_detector.dependency_graph@,
            final(self).threads == old(self).threads,
            final(self).gpu_enabled == old(self).gpu_enabled,
            final(self).executed_txs@ == old(self).executed_txs@,
    {
        if self.conflict_detector.conflicts_detected < u64::MAX {
            self.conflict_detector.conflicts_detected = self.conflict_detector.conflicts_detected
                + 1;
        }
    }
}


impl ParallelExecutionEngine {
    /// Walks every ordered pair of distinct-hash transactions, counting
    /// conflicts and recording exactly the conflicting pairs as
    /// dependency edges from the first hash to the second — so the
    /// relation recorded is symmetric, nothing beyond the batch's
    /// conflicts is added, entries keyed outside the batch are untouched,
    /// and no key or edge already in the graph is lost.
    pub fn analyze_dependencies(&mut self, txs: &[Transaction])
        ensures
            final(self).conflicts_detected() as int == saturating_raise(
                old(self).conflicts_detected(),
                pair_count_upto(txs@, txs@.len() as int),
            ),
            final(self).threads == old(self).threads,
            final(self).gpu_enabled == old(self).gpu_enabled,
            final(self).executed_txs@ == old(self).executed_txs@,
            forall|p: int, q: int|
                0 <= p < txs@.len() && 0 <= q < txs@.len() && txs@[p].hash@ != txs@[q].hash@
                    && #[trigger] spec_conflict(txs@[p], txs@[q]) ==> graph_edge(
                    final(self).conflict_detector.dependency_graph@,
                    txs@[p].hash@,
                    txs@[q].hash@,
                ),
            forall|k: Seq<char>, d: Seq<char>|
                #[trigger] graph_edge(old(self).conflict_detector.dependency_graph@, k, d)
                    ==> graph_edge(final(self).conflict_detector.dependency_graph@, k, d),
            forall|k: Seq<char>, d: Seq<char>|
                #[trigger] graph_edge(final(self).conflict_detector.dependency_graph@, k, d)
                    ==> graph_edge(old(self).conflict_detector.dependency_graph@, k, d)
                    || conflicting_pair(txs@, k, d),
            final(self).conflict_detector.dependency_graph@.len() >= old(self).conflict_detector.dependency_graph@.len(),
            forall|w: int|
                old(self).conflict_detector.dependency_graph@.len() <= w < final(self).conflict_detector.dependency_graph@.len() ==> is_batch_hash(
                    txs@,
                    (#[trigger] final(self).conflict_detector.dependency_graph@[w]).0@,
                ),
            forall|w: int|
                0 <= w < old(self).conflict_detector.dependency_graph@.len() && (forall|p: int|
                    0 <= p < txs@.len() ==> txs@[p].hash@ != old(self).conflict_detector.dependency_graph@[w].0@)
                    ==> final(self).conflict_detector.dependency_graph@[w] == old(self).conflict_detector.dependency_graph@[w],
            forall|k: Seq<char>|
                graph_has(old(self).conflict_detector.dependency_graph@, k) ==> graph_has(
                    final(self).conflict_detector.dependency_graph@,
                    k,
                ),
    {
        let ghost c0 = self.conflicts_detected();
        let ghost g0 = self.conflict_detector.dependency_graph@;
        let mut i: usize = 0;
        while i < txs.len()
            invariant
                i <= txs@.len(),
                c0 == old(self).conflicts_detected(),
                g0 == old(self).conflict_detector.dependency_graph@,
                self.conflicts_detected() as int == saturating_raise(
                    c0,
                    pair_count_upto(txs@, i as int),
                ),
                self.threads == old(self).threads,
                self.gpu_enabled == old(self).gpu_enabled,
                self.executed_txs@ == old(self).executed_txs@,
                self.conflict_detector.dependency_graph@.len() >= g0.len(),
                forall|p: int, q: int|
                    0 <= p < i && 0 <= q < txs@.len() && txs@[p].hash@ != txs@[q].hash@
                        && #[trigger] spec_conflict(txs@[p], txs@[q]) ==> graph_edge(
                        self.conflict_detector.dependency_graph@,
                        txs@[p].hash@,
                        txs@[q].hash@,
                    ),
                forall|k: Seq<char>, d: Seq<char>|
                    #[trigger] graph_edge(g0, k, d) ==> graph_edge(
                        self.conflict_detector.dependency_graph@,
                        k,
                        d,
                    ),
                forall|k: Seq<char>, d: Seq<char>|
                    #[trigger] graph_edge(self.conflict_detector.dependency_graph@, k, d)
                        ==> graph_edge(g0, k, d) || conflicting_pair(txs@, k, d),
                forall|w: int|
                    g0.len() <= w < self.conflict_detector.dependency_graph@.len()
                        ==> is_batch_hash(
                        txs@,
                        (#[trigger] self.conflict_detector.dependency_graph@[w]).0@,
                    ),
                forall|w: int|
                    0 <= w < g0.len() && (forall|p: int|
                        0 <= p < txs@.len() ==> txs@[p].hash@ != g0[w].0@) ==> #[trigger] self.conflict_detector.dependency_graph@[w]
                        == g0[w],
                forall|k: Seq<char>|
                    graph_has(g0, k) ==> graph_has(self.conflict_detector.dependency_graph@, k),
            decreases txs@.len() - i,
        {
            let mut j: usize = 0;
            while j < txs.len()
                invariant
                    i < txs@.len(),
                    j <= txs@.len(),
                    c0 == old(self).conflicts_detected(),
                    g0 == old(self).conflict_detector.dependency_graph@,
                    self.conflicts_detected() as int == saturating_raise(
                        c0,
                        pair_count_upto(txs@, i as int) + row_count(
                            txs@[i as int],
                            txs@.take(j as int),
                        ),
                    ),
                    self.threads == old(self).threads,
                    self.gpu_enabled == old(self).gpu_enabled,
                    self.executed_txs@ == old(self).executed_txs@,
                    self.conflict_detector.dependency_graph@.len() >= g0.len(),
                    forall|p: int, q: int|
                        0 <= p < txs@.len() && 0 <= q < txs@.len() && (p < i || (p == i && q
                            < j)) && txs@[p].hash@ != txs@[q].hash@ && #[trigger] spec_conflict(
                            txs@[p],
                            txs@[q],
                        ) ==> graph_edge(
                            self.conflict_detector.dependency_graph@,
                            txs@[p].hash@,
                            txs@[q].hash@,
                        ),
                    forall|k: Seq<char>, d: Seq<char>|
                        #[trigger] graph_edge(g0, k, d) ==> graph_edge(
                            self.conflict_detector.dependency_graph@,
                            k,
                            d,
                        ),
                    forall|k: Seq<char>, d: Seq<char>|
                        #[trigger] graph_edge(self.conflict_detector.dependency_graph@, k, d)
                            ==> graph_edge(g0, k, d) || conflicting_pair(txs@, k, d),
                    forall|w: int|
                        g0.len() <= w < self.conflict_detector.dependency_graph@.len()
                            ==> is_batch_hash(
                            txs@,
                            (#[trigger] self.conflict_detector.dependency_graph@[w]).0@,
                        ),
                    forall|w: int|
                        0 <= w < g0.len() && (forall|p: int|
                            0 <= p < txs@.len() ==> txs@[p].hash@ != g0[w].0@)
                            ==> #[trigger] self.conflict_detector.dependency_graph@[w] == g0[w],
                    forall|k: Seq<char>|
                        graph_has(g0, k) ==> graph_has(self.conflict_detector.dependency_graph@, k),
                decreases txs@.len() - j,
            {
                let tx = &txs[i];
                let other = &txs[j];
                if !(tx.hash == other.hash) {
                    let has_conflict = self.detect_conflict(tx, other);
                    if has_conflict {
                        let ghost gprev = self.conflict_detector.dependency_graph@;
                        self.conflict_detector.add_dependency(
                            tx.hash.clone(),
                            other.hash.clone(),
                        );
                        proof {
                            let gnow = self.conflict_detector.dependency_graph@;
                            let h1 = txs@[i as int].hash@;
                            let h2 = txs@[j as int].hash@;
                            assert(spec_conflict(txs@[i as int], txs@[j as int]));
                            assert(conflicting_pair(txs@, h1, h2));
                            // Every edge already recorded survives the insertion.
                            assert forall|k: Seq<char>, d: Seq<char>|
                                #[trigger] graph_edge(gprev, k, d) implies graph_edge(
                                gnow,
                                k,
                                d,
                            ) by {
                                let (wi, wj) = choose|wi: int, wj: int|
                                    0 <= wi < gprev.len() && gprev[wi].0@ == k && 0 <= wj
                                        < gprev[wi].1@.len() && gprev[wi].1@[wj]@ == d;
                                if graph_has(gprev, h1) {
                                    let fki = first_key_idx(gprev, h1);
                                    if wi == fki {
                                        assert(gnow[wi].0@ == k);
                                        assert(gnow[wi].1@[wj]@ == d);
                                    } else {
                                        assert(gnow[wi] == gprev[wi]);
                                    }
                                } else {
                                    assert(gnow[wi] == gnow.drop_last()[wi]);
                                    assert(gnow[wi] == gprev[wi]);
                                }
                                assert(graph_edge(gnow, k, d));
                            }
                            // The conflicting pair's edge is now recorded.
                            if graph_has(gprev, h1) {
                                let fki = first_key_idx(gprev, h1);
                                assert(gnow[fki].0@ == h1);
                                assert(gnow[fki].1@.last()@ == h2);
                                assert(graph_edge(gnow, h1, h2));
                            } else {
                                let last = gnow.len() - 1;
                                assert(gnow[last].0@ == h1);
                                assert(gnow[last].1@[0]@ == h2);
                                assert(graph_edge(gnow, h1, h2));
                            }
                            // Conversely, every edge of the new graph stood
                            // before or is the detected pair's.
                            assert forall|k: Seq<char>, d: Seq<char>|
                                #[trigger] graph_edge(gnow, k, d) implies graph_edge(gprev, k, d)
                                || (k == h1 && d == h2) by {
                                let (wi, wj) = choose|wi: int, wj: int|
                                    0 <= wi < gnow.len() && gnow[wi].0@ == k && 0 <= wj
                                        < gnow[wi].1@.len() && gnow[wi].1@[wj]@ == d;
                                if graph_has(gprev, h1) {
                                    let fki = first_key_idx(gprev, h1);
                                    if wi == fki {
                                        if wj < gprev[fki].1@.len() {
                                            assert(gprev[wi].0@ == k);
                                            assert(gnow[wi].1@[wj] == gprev[wi].1@[wj]);
                                            assert(graph_edge(gprev, k, d));
                                        } else {
                                            assert(wj == gprev[fki].1@.len());
                                            assert(gnow[wi].0@ == h1);
                                            assert(gnow[wi].1@[wj]@ == h2);
                                        }
                                    } else {
                                        assert(gnow[wi] == gprev[wi]);
                                        assert(graph_edge(gprev, k, d));
                                    }
                                } else {
                                    if wi < gprev.len() {
                                        assert(gnow[wi] == gnow.drop_last()[wi]);
                                        assert(gnow[wi] == gprev[wi]);
                                        assert(graph_edge(gprev, k, d));
                                    } else {
                                        assert(wi == gnow.len() - 1);
                                        assert(gnow[wi].0@ == h1);
                                        assert(gnow[wi].1@.len() == 1);
                                        assert(gnow[wi].1@[0]@ == h2);
                                    }
                                }
                            }
                            // So the edge-set invariants carry over.
                            assert forall|k: Seq<char>, d: Seq<char>|
                                #[trigger] graph_edge(gnow, k, d) implies graph_edge(g0, k, d)
                                || conflicting_pair(txs@, k, d) by {
                                assert(graph_edge(gprev, k, d) || (k == h1 && d == h2));
                                if k == h1 && d == h2 {
                                    assert(conflicting_pair(txs@, k, d));
                                }
                            }
                            assert forall|k: Seq<char>, d: Seq<char>|
                                #[trigger] graph_edge(g0, k, d) implies graph_edge(gnow, k, d) by {
                                assert(graph_edge(gprev, k, d));
                            }
                            // A new entry, if any, is keyed by a batch hash.
                            assert forall|w: int|
                                g0.len() <= w < gnow.len() implies is_batch_hash(
                                txs@,
                                (#[trigger] gnow[w]).0@,
                            ) by {
                                if w < gprev.len() {
                                    if graph_has(gprev, h1) {
                                        let fki = first_key_idx(gprev, h1);
                                        if w == fki {
                                            assert(gnow[w].0 == gprev[w].0);
                                        } else {
                                            assert(gnow[w] == gprev[w]);
                                        }
                                    } else {
                                        assert(gnow[w] == gnow.drop_last()[w]);
                                        assert(gnow[w] == gprev[w]);
                                    }
                                    assert(is_batch_hash(txs@, gprev[w].0@));
                                } else {
                                    assert(gnow[w].0@ == h1);
                                    assert(is_batch_hash(txs@, h1));
                                }
                            }
                            // Keys outside the batch keep their entries.
                            assert forall|w: int|
                                0 <= w < g0.len() && (forall|p: int|
                                    0 <= p < txs@.len() ==> txs@[p].hash@ != g0[w].0@)
                                    implies #[trigger] gnow[w] == g0[w] by {
                                assert(gprev[w] == g0[w]);
                                if graph_has(gprev, h1) {
                                    let fki = first_key_idx(gprev, h1);
                                    if w == fki {
                                        assert(gprev[fki].0@ == h1);
                                        assert(txs@[i as int].hash@ != g0[w].0@);
                                        assert(false);
                                    } else {
                                        assert(gnow[w] == gprev[w]);
                                    }
                                } else {
                                    assert(gnow[w] == gnow.drop_last()[w]);
                                    assert(gnow[w] == gprev[w]);
                                }
                            }
                            assert forall|k: Seq<char>|
                                graph_has(gprev, k) implies graph_has(gnow, k) by {
                                let w = choose|w: int|
                                    0 <= w < gprev.len() && gprev[w].0@ == k;
                                assert(gnow[w].0@ == k);
                            }
                        }
                    }
                }
                j = j + 1;
                proof {
                    assert(txs@.take(j as int).drop_last() =~= txs@.take(j - 1));
                    assert(txs@.take(j as int).last() == txs@[j - 1]);
                }
            }
            i = i + 1;
            proof {
                assert(txs@.take(txs@.len() as int) =~= txs@);
            }
        }
        proof {
            assert(txs@.take(txs@.len() as int) =~= txs@);
        }
    }

    /// Analyzes a batch and partitions it into parallel groups: group
    /// views follow the deterministic greedy schedule, and the batch
    /// holds exactly the submitted transactions.
    pub fn prepare_execution_batch(&mut self, txs: Vec<Transaction>) -> (r: Result<
        ExecutionBatch,
        String,
    >)
        ensures
            r is Ok,
            r->Ok_0.batch_id == 1,
            r->Ok_0.total_txs == txs@.len(),
            r->Ok_0.parallel_groups@.len() == spec_schedule(txs@).len(),
            forall|i: int|
                0 <= i < r->Ok_0.parallel_groups@.len() ==> (
                #[trigger] r->Ok_0.parallel_groups@[i])@ == spec_schedule(txs@)[i],
            final(self).conflicts_detected() as int == saturating_raise(
                old(self).conflicts_detected(),
                pair_count_upto(txs@, txs@.len() as int),
            ),
            final(self).threads == old(self).threads,
            final(self).gpu_enabled == old(self).gpu_enabled,
            final(self).executed_txs@ == old(self).executed_txs@,
    {
        self.analyze_dependencies(txs.as_slice());
        let ghost txs0 = txs@;
        let n_all = txs.len();
        let parallel_groups = group_independent_txs(txs);
        let mut total: usize = 0;
        let mut i: usize = 0;
        proof {
            lemma_schedule_len(txs0);
        }
        while i < parallel_groups.len()
            invariant
                i <= parallel_groups@.len(),
                parallel_groups@.len() == spec_schedule(txs0).len(),
                forall|p: int|
                    0 <= p < parallel_groups@.len() ==> (#[trigger] parallel_groups@[p])@
                        == spec_schedule(txs0)[p],
                n_all == txs0.len(),
                total == sum_lens(spec_schedule(txs0).take(i as int)),
                total <= n_all,
            decreases parallel_groups@.len() - i,
        {
            proof {
                lemma_schedule_len(txs0);
                lemma_sum_lens_take_bound(spec_schedule(txs0), i as int + 1);
                assert(spec_schedule(txs0).take(i as int + 1).drop_last() =~= spec_schedule(
                    txs0,
                ).take(i as int));
                assert(spec_schedule(txs0).take(i as int + 1).last() == spec_schedule(txs0)[i as int]);
            }
            total = total + parallel_groups[i].len();
            i = i + 1;
        }
        proof {
            assert(spec_schedule(txs0).take(spec_schedule(txs0).len() as int) =~= spec_schedule(
                txs0,
            ));
        }
        Ok(ExecutionBatch { batch_id: 1, parallel_groups, total_txs: total })
    }

    /// Runs one independent group: each member is recorded as executed,
    /// in group order, and the count of the group is returned. (The
    /// worker chunking of the group is bookkeeping the record does not
    /// observe.)
    pub fn execute_group(&mut self, txs: Vec<Transaction>) -> (r: Result<usize, String>)
        ensures
            r == Result::<usize, String>::Ok(txs@.len() as usize),
            final(self).executed_txs@ == old(self).executed_txs@ + txs@,
            final(self).threads == old(self).threads,
            final(self).gpu_enabled == old(self).gpu_enabled,
            final(self).conflict_detector.dependency_graph@ == old(self).conflict_detector.dependency_graph@,
            final(self).conflicts_detected() == old(self).conflicts_detected(),
    {
        let ghost e0 = self.executed_txs@;
        let ghost txs0 = txs@;
        let n = txs.len();
        let mut txs = txs;
        let mut count: usize = 0;
        while count < n
            invariant
                count <= n,
                n == txs0.len(),
                txs@ =~= txs0.skip(count as int),
                self.executed_txs@ =~= e0 + txs0.take(count as int),
                self.threads == old(self).threads,
                self.gpu_enabled == old(self).gpu_enabled,
                self.conflict_detector.dependency_graph@ == old(self).conflict_detector.dependency_graph@,
                self.conflicts_detected() == old(self).conflicts_detected(),
            decreases n - count,
        {
            let tx = txs.remove(0);
            self.executed_txs.push(tx);
            count = count + 1;
            proof {
                assert(self.executed_txs@ =~= e0 + txs0.take(count as int));
                assert(txs@ =~= txs0.skip(count as int));
            }
        }
        proof {
            assert(txs0.take(n as int) =~= txs0);
        }
        Ok(count)
    }

    /// Executes a batch: conflicts are analyzed and counted, the batch is
    /// partitioned into the deterministic greedy groups, and the groups
    /// run strictly in order, every transaction exactly once. The record
    /// of executed transactions grows by the whole batch, in group
    /// order.
    pub fn execute_parallel(&mut self, txs: Vec<Transaction>) -> (r: Result<ExecutionResult, String>)
        ensures
            r is Ok,
            r->Ok_0.total_txs == txs@.len(),
            r->Ok_0.conflicts_detected == final(self).conflicts_detected(),
            final(self).conflicts_detected() as int == saturating_raise(
                old(self).conflicts_detected(),
                pair_count_upto(txs@, txs@.len() as int),
            ),
            final(self).executed_txs@ == old(self).executed_txs@ + spec_schedule(txs@).flatten(),
            final(self).threads == old(self).threads,
            final(self).gpu_enabled == old(self).gpu_enabled,
    {
        let ghost txs0 = txs@;
        let batch = match self.prepare_execution_batch(txs) {
            Ok(batch) => batch,
            Err(e) => {
                return Err(e);
            },
        };
        let ghost e0 = self.executed_txs@;
        let ghost cd = self.conflicts_detected();
        let mut groups = batch.parallel_groups;
        let ghost gseq = spec_schedule(txs0);
        let mut total_executed: usize = 0;
        let mut gi: usize = 0;
        let n = groups.len();
        let ghost n_all = txs0.len();
        proof {
            lemma_schedule_len(txs0);
        }
        while gi < n
            invariant
                gi <= n,
                n == gseq.len(),
                gseq == spec_schedule(txs0),
                groups@.len() == n - gi,
                forall|p: int|
                    0 <= p < groups@.len() ==> (#[trigger] groups@[p])@ == gseq[gi + p],
                self.executed_txs@ =~= e0 + gseq.take(gi as int).flatten(),
                n_all == txs0.len(),
                total_executed == sum_lens(gseq.take(gi as int)),
                total_executed <= n_all,
                n_all <= usize::MAX,
                self.conflicts_detected() == cd,
                self.threads == old(self).threads,
                self.gpu_enabled == old(self).gpu_enabled,
            decreases n - gi,
        {
            proof {
                lemma_schedule_len(txs0);
                lemma_sum_lens_take_bound(gseq, gi as int + 1);
                assert(gseq.take(gi as int + 1).drop_last() =~= gseq.take(gi as int));
                assert(gseq.take(gi as int + 1).last() == gseq[gi as int]);
            }
            let group = groups.remove(0);
            let executed = match self.execute_group(group) {
                Ok(executed) => executed,
                Err(e) => {
                    return Err(e);
                },
            };
            total_executed = total_executed + executed;
            gi = gi + 1;
            proof {
                gseq.take(gi - 1).lemma_flatten_push(gseq[gi - 1]);
                assert(gseq.take(gi as int) =~= gseq.take(gi - 1).push(gseq[gi - 1]));
                assert(self.executed_txs@ =~= e0 + gseq.take(gi as int).flatten());
                assert(forall|p: int|
                    0 <= p < groups@.len() ==> (#[trigger] groups@[p])@ == gseq[gi + p]);
            }
        }
        proof {
            assert(gseq.take(n as int) =~= gseq);
        }
        Ok(ExecutionResult { total_txs: total_executed, conflicts_detected: self.conflict_detector.conflicts_detected })
    }

    /// Batch work offloaded to an accelerator; refused when none is
    /// enabled.
    pub fn gpu_execute(&self, txs: &[Transaction]) -> (r: Result<(), String>)
        ensures
            r is Ok <==> self.gpu_enabled,
            !self.gpu_enabled ==> r->Err_0@ == "GPU not enabled"@,
    {
        if !self.gpu_enabled {
            return Err("GPU not enabled".to_owned());
        }
        Ok(())
    }
}

/// Prefix sums of group lengths never overshoot the whole.
proof fn lemma_sum_lens_take_bound(gs: Seq<Seq<Transaction>>, k: int)
    requires
        0 <= k <= gs.len(),
    ensures
        sum_lens(gs.take(k)) + gs.skip(k).len() <= sum_lens(gs) || sum_lens(gs.take(k)) <= sum_lens(gs),
        sum_lens(gs.take(k)) <= sum_lens(gs),
        sum_lens(gs.take(k)) >= 0,
    decreases gs.len() - k,
{
    if k == gs.len() {
        assert(gs.take(k) =~= gs);
        lemma_sum_lens_nonneg(gs.take(k));
    } else {
        lemma_sum_lens_take_bound(gs, k + 1);
        assert(gs.take(k + 1).drop_last() =~= gs.take(k));
        lemma_sum_lens_nonneg(gs.take(k));
    }
}

proof fn lemma_sum_lens_nonneg(gs: Seq<Seq<Transaction>>)
    ensures
        sum_lens(gs) >= 0,
    decreases gs.len(),
{
    if gs.len() > 0 {
        lemma_sum_lens_nonneg(gs.drop_last());
    }
}

} // verus!
