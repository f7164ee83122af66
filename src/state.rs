use vstd::prelude::*;

verus! {

/// The 32 bytes that identify a participant or an account.
#[derive(Clone, Copy, Debug)]
pub struct Pubkey {
    pub bytes: [u8; 32],
}

impl PartialEq for Pubkey {
    fn eq(&self, o: &Pubkey) -> (r: bool) {
        let mut i: usize = 0;
        while i < 32
            invariant
                0 <= i <= 32,
                forall|k: int| 0 <= k < i ==> self.bytes@[k] == o.bytes@[k],
            decreases 32 - i,
        {
            if self.bytes[i] != o.bytes[i] {
                return false;
            }
            i = i + 1;
        }
        assert(self.bytes@ =~= o.bytes@);
        true
    }
}

impl vstd::std_specs::cmp::PartialEqSpecImpl for Pubkey {
    open spec fn obeys_eq_spec() -> bool {
        true
    }

    open spec fn eq_spec(&self, o: &Pubkey) -> bool {
        self.bytes@ == o.bytes@
    }
}

impl Eq for Pubkey {
}

/// Where an election stands. Stages only move forward.
#[derive(PartialEq, Eq, Structural, Clone, Copy, Debug)]
pub enum ElectionStage {
    Application,
    Voting,
    Closed,
}

/// Why an operation was refused. A refused operation changes nothing.
#[derive(PartialEq, Eq, Structural, Clone, Copy, Debug)]
pub enum ElectionError {
    PrivilegeNotAllowed,
    WrongPublicKey,
    NotAtVotingStage,
    ApplicationIsClosed,
    ElectionIsClosed,
    WinnerCountNotAllowed,
}

/// The state of one election.
///
/// `winners_id` and `winners_votes` are parallel: entry `i` of each describes
/// the candidate ranked `i`-th. An election closed without a vote (every
/// applicant seated) holds the ids alone, each with no vote counted.
#[derive(Debug)]
pub struct ElectionData {
    pub candidates: u64,
    pub stage: ElectionStage,
    pub initiator: Pubkey,
    pub winners_num: u8,
    pub winners_id: Vec<u64>,
    pub winners_votes: Vec<u64>,
}

/// A registered candidate and the votes cast for it.
#[derive(Clone, Copy, Debug)]
pub struct CandidateData {
    pub votes: u64,
    pub id: u64,
    pub pubkey: Pubkey,
}

/// The record of having applied: a sequential id and who applied.
#[derive(Clone, Copy, Debug)]
pub struct CandidateIdentity {
    pub id: u64,
    pub pubkey: Pubkey,
}

/// A voter's receipt: which candidate the vote went to.
#[derive(PartialEq, Eq, Structural, Clone, Copy, Debug)]
pub struct MyVote {
    pub id: u64,
}

} // verus!
