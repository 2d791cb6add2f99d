//! On-chain governance: proposals, weighted votes, and execution of
//! proposals the vote carried.

use vstd::prelude::*;
use vstd::string::StringExecFns;

verus! {

#[derive(Debug, Clone, Copy, PartialEq, Eq, Structural)]
pub enum ProposalStatus {
    Active,
    Passed,
    Rejected,
    Executed,
}

pub struct Proposal {
    pub id: u64,
    pub title: String,
    pub description: String,
    pub votes_for: u64,
    pub votes_against: u64,
    pub status: ProposalStatus,
}

/// Whether some proposal carries the id.
pub open spec fn prop_has(ps: Seq<Proposal>, id: u64) -> bool {
    exists|i: int| 0 <= i < ps.len() && ps[i].id == id
}

/// The index of the first proposal carrying the id.
pub open spec fn prop_idx(ps: Seq<Proposal>, id: u64) -> int
    decreases ps.len(),
{
    if ps.len() == 0 {
        0
    } else if ps[0].id == id {
        0
    } else {
        1 + prop_idx(ps.drop_first(), id)
    }
}

proof fn lemma_prop_idx(ps: Seq<Proposal>, id: u64, i: int)
    requires
        0 <= i < ps.len(),
        ps[i].id == id,
        forall|j: int| 0 <= j < i ==> ps[j].id != id,
    ensures
        prop_idx(ps, id) == i,
    decreases i,
{
    if i > 0 {
        lemma_prop_idx(ps.drop_first(), id, i - 1);
    }
}

/// An addition stopping at the numeric ceiling.
pub open spec fn sat_add(a: u64, b: u64) -> u64 {
    if a + b > u64::MAX {
        u64::MAX
    } else {
        (a + b) as u64
    }
}

pub struct Governance {
    pub proposals: Vec<Proposal>,
    pub next_proposal_id: u64,
}

impl Governance {
    /// Well-formedness: proposal ids are pairwise distinct and all below
    /// the running counter, so a freshly created proposal never collides.
    pub open spec fn wf(&self) -> bool {
        &&& forall|a: int, b: int|
            0 <= a < b < self.proposals@.len() ==> self.proposals@[a].id != self.proposals@[b].id
        &&& forall|a: int|
            0 <= a < self.proposals@.len() ==> (#[trigger] self.proposals@[a]).id
                < self.next_proposal_id
    }

    /// No proposals yet; ids start at 1.
    pub fn new() -> (g: Self)
        ensures
            g.wf(),
            g.proposals@ == Seq::<Proposal>::empty(),
            g.next_proposal_id == 1,
    {
        Governance { proposals: Vec::new(), next_proposal_id: 1 }
    }

    /// Registers a new, active proposal under the next id and returns
    /// that id.
    pub fn create_proposal(&mut self, title: String, description: String) -> (r: u64)
        ensures
            r == old(self).next_proposal_id,
            final(self).next_proposal_id == sat_add(old(self).next_proposal_id, 1),
            final(self).proposals@.len() == old(self).proposals@.len() + 1,
            final(self).proposals@.drop_last() == old(self).proposals@,
            final(self).proposals@.last().id == r,
            final(self).proposals@.last().title == title,
            final(self).proposals@.last().description == description,
            final(self).proposals@.last().votes_for == 0,
            final(self).proposals@.last().votes_against == 0,
            final(self).proposals@.last().status == ProposalStatus::Active,
            (old(self).wf() && old(self).next_proposal_id < u64::MAX) ==> final(self).wf(),
    {
        let id = self.next_proposal_id;
        if self.next_proposal_id < u64::MAX {
            self.next_proposal_id = self.next_proposal_id + 1;
        }
        let proposal = Proposal {
            id,
            title,
            description,
            votes_for: 0,
            votes_against: 0,
            status: ProposalStatus::Active,
        };
        let ghost ps0 = self.proposals@;
        self.proposals.push(proposal);
        proof {
            assert(self.proposals@.drop_last() =~= ps0);
            if old(self).wf() && old(self).next_proposal_id < u64::MAX {
                assert forall|a: int, b: int|
                    0 <= a < b < self.proposals@.len() implies self.proposals@[a].id
                    != self.proposals@[b].id by {
                    if b == self.proposals@.len() - 1 {
                        assert(ps0[a].id < id);
                    }
                }
            }
        }
        id
    }

    fn find(&self, proposal_id: u64) -> (r: Option<usize>)
        ensures
            match r {
                Some(i) => i < self.proposals@.len() && self.proposals@[i as int].id == proposal_id
                    && prop_idx(self.proposals@, proposal_id) == i,
                None => !prop_has(self.proposals@, proposal_id),
            },
    {
        let mut i: usize = 0;
        while i < self.proposals.len()
            invariant
                i <= self.proposals@.len(),
                forall|j: int| 0 <= j < i ==> self.proposals@[j].id != proposal_id,
            decreases self.proposals@.len() - i,
        {
            if self.proposals[i].id == proposal_id {
                proof {
                    lemma_prop_idx(self.proposals@, proposal_id, i as int);
                }
                return Some(i);
            }
            i = i + 1;
        }
        None
    }

    /// Adds `power` votes for or against the first proposal carrying the
    /// id; unknown ids are refused.
    pub fn vote(&mut self, proposal_id: u64, vote_for: bool, power: u64) -> (r: Result<(), String>)
        ensures
            r is Ok <==> prop_has(old(self).proposals@, proposal_id),
            r is Err ==> final(self).proposals@ == old(self).proposals@
                && r->Err_0@ == "Proposal not found"@,
            r is Ok ==> {
                let i = prop_idx(old(self).proposals@, proposal_id);
                let p0 = old(self).proposals@[i];
                &&& final(self).proposals@.len() == old(self).proposals@.len()
                &&& forall|j: int|
                    0 <= j < old(self).proposals@.len() && j != i
                        ==> final(self).proposals@[j] == old(self).proposals@[j]
                &&& final(self).proposals@[i].id == p0.id
                &&& final(self).proposals@[i].title == p0.title
                &&& final(self).proposals@[i].description == p0.description
                &&& final(self).proposals@[i].status == p0.status
                &&& (vote_for ==> final(self).proposals@[i].votes_for == sat_add(p0.votes_for, power)
                    && final(self).proposals@[i].votes_against == p0.votes_against)
                &&& (!vote_for ==> final(self).proposals@[i].votes_against == sat_add(
                    p0.votes_against,
                    power,
                ) && final(self).proposals@[i].votes_for == p0.votes_for)
            },
            final(self).next_proposal_id == old(self).next_proposal_id,
            old(self).wf() ==> final(self).wf(),
    {
        let ghost ps0 = self.proposals@;
        match self.find(proposal_id) {
            Some(i) => {
                let mut p = self.proposals.remove(i);
                if vote_for {
                    p.votes_for = if power <= u64::MAX - p.votes_for {
                        p.votes_for + power
                    } else {
                        u64::MAX
                    };
                } else {
                    p.votes_against = if power <= u64::MAX - p.votes_against {
                        p.votes_against + power
                    } else {
                        u64::MAX
                    };
                }
                self.proposals.insert(i, p);
                proof {
                    assert(self.proposals@ =~= ps0.update(i as int, self.proposals@[i as int]));
                    assert(self.proposals@[i as int].id == ps0[i as int].id);
                }
                Ok(())
            },
            None => Err("Proposal not found".to_owned()),
        }
    }

    /// The first proposal carrying the id, if any.
    pub fn get_proposal(&self, proposal_id: u64) -> (r: Option<&Proposal>)
        ensures
            match r {
                Some(p) => prop_has(self.proposals@, proposal_id) && *p
                    == self.proposals@[prop_idx(self.proposals@, proposal_id)],
                None => !prop_has(self.proposals@, proposal_id),
            },
    {
        match self.find(proposal_id) {
            Some(i) => Some(&self.proposals[i]),
            None => None,
        }
    }

    /// Marks the proposal executed when the vote carried it; a proposal
    /// that did not pass, or an unknown id, is refused.
    pub fn execute_proposal(&mut self, proposal_id: u64) -> (r: Result<(), String>)
        ensures
            final(self).next_proposal_id == old(self).next_proposal_id,
            r is Ok <==> (prop_has(old(self).proposals@, proposal_id) && old(self).proposals@[
                prop_idx(old(self).proposals@, proposal_id)
            ].votes_for > old(self).proposals@[prop_idx(old(self).proposals@, proposal_id)].votes_against),
            !prop_has(old(self).proposals@, proposal_id) ==> (r is Err && r->Err_0@
                == "Proposal not found"@),
            (prop_has(old(self).proposals@, proposal_id) && r is Err) ==> r->Err_0@
                == "Proposal not passed"@,
            r is Err ==> final(self).proposals@ == old(self).proposals@,
            r is Ok ==> {
                let i = prop_idx(old(self).proposals@, proposal_id);
                let p0 = old(self).proposals@[i];
                &&& final(self).proposals@.len() == old(self).proposals@.len()
                &&& forall|j: int|
                    0 <= j < old(self).proposals@.len() && j != i
                        ==> final(self).proposals@[j] == old(self).proposals@[j]
                &&& final(self).proposals@[i].status == ProposalStatus::Executed
                &&& final(self).proposals@[i].id == p0.id
                &&& final(self).proposals@[i].votes_for == p0.votes_for
                &&& final(self).proposals@[i].votes_against == p0.votes_against
            },
            old(self).wf() ==> final(self).wf(),
    {
        let ghost ps0 = self.proposals@;
        match self.find(proposal_id) {
            Some(i) => {
                if self.proposals[i].votes_for > self.proposals[i].votes_against {
                    let mut p = self.proposals.remove(i);
                    p.status = ProposalStatus::Executed;
                    self.proposals.insert(i, p);
                    proof {
                        assert(self.proposals@ =~= ps0.update(
                            i as int,
                            self.proposals@[i as int],
                        ));
                        assert(self.proposals@[i as int].id == ps0[i as int].id);
                    }
                    Ok(())
                } else {
                    Err("Proposal not passed".to_owned())
                }
            },
            None => Err("Proposal not found".to_owned()),
        }
    }
}

} // verus!
