//! An election with an application stage, a voting stage and a closed stage,
//! whose winners are kept incrementally as a bounded list sorted by votes.

pub mod election;
pub mod laws;
pub mod program;
pub mod ranking;
pub mod state;

pub use program::{
    apply, new_election, register, update_election_stage, vote, Apply, CandidateApplied,
    CandidateRegistered, ChangeStage, CreateElection, ElectionCreated, ElectionStageChanged,
    Register, Vote, VoteCast,
};
pub use state::{
    CandidateData, CandidateIdentity, ElectionData, ElectionError, ElectionStage, MyVote, Pubkey,
};
