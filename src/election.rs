use crate::ranking::{
    after_vote, bubble, descending, distinct_ids, lemma_bubble_descending, lemma_bubble_keeps,
    slot_of, tracks,
};
use crate::state::{ElectionData, ElectionError, ElectionStage};
use vstd::prelude::*;

verus! {

/// The first position of `id` in `ids`, if any.
fn find_slot(ids: &Vec<u64>, id: u64) -> (r: Option<usize>)
    ensures
        r is None <==> !ids@.contains(id),
        r matches Some(k) ==> k < ids@.len() && ids@[k as int] == id,
{
    let mut i: usize = 0;
    while i < ids.len()
        invariant
            0 <= i <= ids@.len(),
            forall|k: int| 0 <= k < i ==> ids@[k] != id,
        decreases ids@.len() - i,
    {
        if ids[i] == id {
            return Some(i);
        }
        i = i + 1;
    }
    None
}

/// The ids `1..=n`, in order: every applicant of an election with `n`
/// applications.
pub open spec fn all_applicants(n: nat) -> Seq<u64> {
    Seq::new(n, |k: int| (k + 1) as u64)
}

impl ElectionData {
    /// The winners table as (candidate id, votes) pairs, best first. An id
    /// with no vote count beside it reads as zero votes.
    pub open spec fn winners(&self) -> Seq<(u64, u64)> {
        Seq::new(
            self.winners_id@.len(),
            |i: int|
                (
                    self.winners_id@[i],
                    if i < self.winners_votes@.len() {
                        self.winners_votes@[i]
                    } else {
                        0
                    },
                ),
        )
    }

    /// The vote tracker holds a count beside every id.
    pub open spec fn counts_paired(&self) -> bool {
        self.winners_votes@.len() == self.winners_id@.len()
    }

    /// The invariant of an election: at least one seat, no more winners than
    /// seats, each winner once, best first; no winners while applications
    /// are open; and a count beside each winner unless the election closed
    /// without a vote.
    pub open spec fn well_formed(&self) -> bool {
        &&& self.winners_num > 0
        &&& self.winners_id@.len() <= self.winners_num
        &&& self.counts_paired() || (self.stage == ElectionStage::Closed
            && self.winners_votes@.len() == 0)
        &&& self.stage == ElectionStage::Application ==> self.winners_id@.len() == 0
        &&& descending(self.winners())
        &&& distinct_ids(self.winners())
    }

    /// Counting one more vote for `id` does not overflow the tracker's copy.
    pub open spec fn vote_fits(&self, id: u64) -> bool {
        forall|k: int|
            0 <= k < self.winners_id@.len() && self.winners_id@[k] == id ==> self.winners_votes@[k]
                < u64::MAX
    }

    /// Updates the winners table after a vote that brought candidate `id` to
    /// `votes` votes.
    pub fn record_vote(&mut self, id: u64, votes: u64)
        requires
            old(self).well_formed(),
            old(self).stage == ElectionStage::Voting,
            old(self).vote_fits(id),
        ensures
            final(self).winners() == after_vote(
                old(self).winners(),
                old(self).winners_num as int,
                id,
                votes,
            ),
            final(self).well_formed(),
            final(self).counts_paired(),
            final(self).candidates == old(self).candidates,
            final(self).stage == old(self).stage,
            final(self).initiator == old(self).initiator,
            final(self).winners_num == old(self).winners_num,
    {
        let ghost s = self.winners();
        let ghost cap = self.winners_num as int;
        let j0: usize;
        match find_slot(&self.winners_id, id) {
            None => {
                assert(!tracks(s, id)) by {
                    if tracks(s, id) {
                        let k = choose|k: int| 0 <= k < s.len() && s[k].0 == id;
                        assert(self.winners_id@[k] == id);
                    }
                }
                if self.winners_id.len() < self.winners_num as usize {
                    j0 = self.winners_id.len();
                    self.winners_id.push(id);
                    self.winners_votes.push(votes);
                    assert(self.winners() =~= s.push((id, votes)));
                } else {
                    let last = (self.winners_num - 1) as usize;
                    if votes > self.winners_votes[last] {
                        j0 = last;
                        self.winners_id.set(last, id);
                        self.winners_votes.set(last, votes);
                        assert(self.winners() =~= s.update(last as int, (id, votes)));
                    } else {
                        return;
                    }
                }
            },
            Some(index) => {
                assert(s[index as int].0 == id);
                assert(tracks(s, id));
                assert(slot_of(s, id) == index) by {
                    let k = slot_of(s, id);
                    assert(s[k].0 == id);
                }
                j0 = index;
                let v = self.winners_votes[index] + 1;
                self.winners_votes.set(index, v);
                assert(self.winners() =~= s.update(index as int, (id, v)));
            },
        }
        let ghost start = self.winners();
        let ghost target = bubble(start, j0 as int);
        proof {
            assert forall|a: int, b: int|
                0 <= a < b < start.len() && a != j0 && b != j0 implies start[a].1 >= start[b].1 by {
                assert(start[a] == s[a] && start[b] == s[b]);
            }
            assert forall|b: int| j0 < b < start.len() implies start[j0 as int].1 >= start[b].1 by {
                assert(start[b] == s[b]);
                assert(s[j0 as int].1 >= s[b].1);
            }
            lemma_bubble_keeps(start, j0 as int);
            lemma_bubble_descending(start, j0 as int);
            assert(distinct_ids(start)) by {
                if !tracks(s, id) && start.len() == s.len() {
                    assert forall|a: int, b: int| 0 <= a < b < start.len() implies start[a].0
                        != start[b].0 by {
                        if a == j0 {
                            assert(s[b].0 == start[b].0);
                        } else if b == j0 {
                            assert(s[a].0 == start[a].0);
                        }
                    }
                } else if !tracks(s, id) {
                    assert forall|a: int, b: int| 0 <= a < b < start.len() implies start[a].0
                        != start[b].0 by {
                        if b == j0 {
                            assert(s[a].0 == start[a].0);
                        }
                    }
                }
            }
        }
        let mut j: usize = j0;
        while j > 0 && self.winners_votes[j] > self.winners_votes[j - 1]
            invariant
                j < self.winners_id@.len(),
                self.counts_paired(),
                bubble(self.winners(), j as int) == target,
                self.candidates == old(self).candidates,
                self.stage == old(self).stage,
                self.initiator == old(self).initiator,
                self.winners_num == old(self).winners_num,
            decreases j,
        {
            let ghost w = self.winners();
            let vj = self.winners_votes[j];
            let vp = self.winners_votes[j - 1];
            self.winners_votes.set(j - 1, vj);
            self.winners_votes.set(j, vp);
            let ij = self.winners_id[j];
            let ip = self.winners_id[j - 1];
            self.winners_id.set(j - 1, ij);
            self.winners_id.set(j, ip);
            assert(self.winners() =~= w.update(j - 1, w[j as int]).update(j as int, w[j - 1]));
            j = j - 1;
        }
    }

    /// Ends the application stage. With no more applicants than seats every
    /// applicant wins, in order of application, and the election closes
    /// without a vote; otherwise voting opens.
    pub fn close_application(&mut self) -> (r: Result<(), ElectionError>)
        requires
            old(self).well_formed(),
        ensures
            old(self).stage != ElectionStage::Application ==> r == Err::<(), ElectionError>(
                ElectionError::ApplicationIsClosed,
            ) && *final(self) == *old(self),
            old(self).stage == ElectionStage::Application ==> r is Ok,
            old(self).stage == ElectionStage::Application && old(self).candidates
                <= old(self).winners_num ==> final(self).stage == ElectionStage::Closed
                && final(self).winners_id@ == all_applicants(old(self).candidates as nat)
                && final(self).winners_votes@ == old(self).winners_votes@,
            old(self).stage == ElectionStage::Application && old(self).candidates
                > old(self).winners_num ==> final(self).stage == ElectionStage::Voting
                && final(self).winners_id@ == old(self).winners_id@
                && final(self).winners_votes@ == old(self).winners_votes@,
            final(self).well_formed(),
            final(self).candidates == old(self).candidates,
            final(self).initiator == old(self).initiator,
            final(self).winners_num == old(self).winners_num,
    {
        if self.stage != ElectionStage::Application {
            return Err(ElectionError::ApplicationIsClosed);
        }
        if self.candidates <= self.winners_num as u64 {
            let mut i: u64 = 0;
            while i < self.candidates
                invariant
                    i <= self.candidates <= self.winners_num,
                    self.winners_id@ == all_applicants(i as nat),
                    self.winners_votes@ == old(self).winners_votes@,
                    self.winners_votes@.len() == 0,
                    self.candidates == old(self).candidates,
                    self.stage == old(self).stage,
                    self.initiator == old(self).initiator,
                    self.winners_num == old(self).winners_num,
                decreases self.candidates - i,
            {
                i = i + 1;
                self.winners_id.push(i);
                assert(self.winners_id@ =~= all_applicants(i as nat));
            }
            self.stage = ElectionStage::Closed;
        } else {
            self.stage = ElectionStage::Voting;
        }
        Ok(())
    }

    /// Ends the voting stage; the winners table as it stands is final.
    pub fn close_voting(&mut self) -> (r: Result<(), ElectionError>)
        requires
            old(self).well_formed(),
        ensures
            old(self).stage != ElectionStage::Voting ==> r == Err::<(), ElectionError>(
                ElectionError::NotAtVotingStage,
            ) && *final(self) == *old(self),
            old(self).stage == ElectionStage::Voting ==> r is Ok && *final(self) == (ElectionData {
                stage: ElectionStage::Closed,
                ..*old(self)
            }),
            final(self).well_formed(),
    {
        if self.stage != ElectionStage::Voting {
            return Err(ElectionError::NotAtVotingStage);
        }
        self.stage = ElectionStage::Closed;
        Ok(())
    }

    /// Whether the election satisfies `well_formed`.
    pub fn check_well_formed(&self) -> (r: bool)
        ensures
            r == self.well_formed(),
    {
        let n = self.winners_id.len();
        if self.winners_num == 0 || n > self.winners_num as usize {
            return false;
        }
        let paired = self.winners_votes.len() == n;
        if !paired && !(self.stage == ElectionStage::Closed && self.winners_votes.len() == 0) {
            return false;
        }
        if self.stage == ElectionStage::Application && n != 0 {
            return false;
        }
        let mut a: usize = 0;
        while a < n
            invariant
                n == self.winners_id@.len(),
                self.winners_votes@.len() == n || self.winners_votes@.len() == 0,
                paired == (self.winners_votes@.len() == n),
                0 <= a <= n,
                forall|x: int, y: int|
                    0 <= x < a && x < y < n ==> self.winners()[x].1 >= self.winners()[y].1
                        && self.winners()[x].0 != self.winners()[y].0,
            decreases n - a,
        {
            let mut b: usize = a + 1;
            while b < n
                invariant
                    n == self.winners_id@.len(),
                    self.winners_votes@.len() == n || self.winners_votes@.len() == 0,
                    paired == (self.winners_votes@.len() == n),
                    0 <= a < n,
                    a + 1 <= b <= n,
                    forall|x: int, y: int|
                        0 <= x < a && x < y < n ==> self.winners()[x].1 >= self.winners()[y].1
                            && self.winners()[x].0 != self.winners()[y].0,
                    forall|y: int|
                        a < y < b ==> self.winners()[a as int].1 >= self.winners()[y].1
                            && self.winners()[a as int].0 != self.winners()[y].0,
                decreases n - b,
            {
                if self.winners_id[a] == self.winners_id[b] {
                    assert(self.winners()[a as int].0 == self.winners()[b as int].0);
                    return false;
                }
                if paired && self.winners_votes[a] < self.winners_votes[b] {
                    assert(self.winners()[a as int].1 < self.winners()[b as int].1);
                    return false;
                }
                b = b + 1;
            }
            a = a + 1;
        }
        true
    }

    /// Whether the tracker's copy of `id`'s votes can take one more vote.
    pub fn check_vote_fits(&self, id: u64) -> (r: bool)
        requires
            self.well_formed(),
            self.stage == ElectionStage::Voting,
        ensures
            r == self.vote_fits(id),
    {
        match find_slot(&self.winners_id, id) {
            None => true,
            Some(k) => {
                assert forall|i: int|
                    0 <= i < self.winners_id@.len() && self.winners_id@[i] == id implies i == k by {
                    if i != k {
                        assert(self.winners()[i].0 == self.winners()[k as int].0);
                    }
                }
                self.winners_votes[k] < u64::MAX
            },
        }
    }
}

} // verus!
