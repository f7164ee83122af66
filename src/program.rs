use crate::election::all_applicants;
use crate::ranking::after_vote;
use crate::state::{
    CandidateData, CandidateIdentity, ElectionData, ElectionError, ElectionStage, MyVote, Pubkey,
};
use vstd::prelude::*;

verus! {

/// The accounts that creating an election works on.
#[derive(Debug)]
pub struct CreateElection {
    pub signer: Pubkey,
    pub election_data: ElectionData,
}

/// The accounts that applying as a candidate works on.
#[derive(Debug)]
pub struct Apply {
    pub candidate_identity: CandidateIdentity,
    pub election_data: ElectionData,
    pub election_key: Pubkey,
    pub signer: Pubkey,
}

/// The accounts that registering as a candidate works on.
#[derive(Debug)]
pub struct Register {
    pub candidate_data: CandidateData,
    pub election_data: ElectionData,
    pub candidate_identity: CandidateIdentity,
    pub signer: Pubkey,
}

/// The accounts that changing an election's stage works on.
#[derive(Debug)]
pub struct ChangeStage {
    pub election_data: ElectionData,
    pub election_key: Pubkey,
    pub signer: Pubkey,
}

/// The accounts that casting a vote works on.
#[derive(Debug)]
pub struct Vote {
    pub my_vote: MyVote,
    pub candidate_data: CandidateData,
    pub signer: Pubkey,
    pub election_data: ElectionData,
}

/// Announces a new election.
#[derive(Clone, Copy, Debug)]
pub struct ElectionCreated {
    pub initiator: Pubkey,
    pub winners: u8,
}

/// Announces an application.
#[derive(Clone, Copy, Debug)]
pub struct CandidateApplied {
    pub election: Pubkey,
    pub candidate: Pubkey,
}

/// Announces a registration.
#[derive(Clone, Copy, Debug)]
pub struct CandidateRegistered {
    pub candidate: Pubkey,
    pub id: u64,
}

/// Announces an accepted request to change stage.
#[derive(Clone, Copy, Debug)]
pub struct ElectionStageChanged {
    pub election: Pubkey,
    pub new_stage: ElectionStage,
}

/// Announces a vote.
#[derive(Clone, Copy, Debug)]
pub struct VoteCast {
    pub voter: Pubkey,
    pub candidate: u64,
}

/// Why a request by `signer` to move election `e` to `new_stage` is refused,
/// if it is. Only the initiator may ask; a closed election never changes;
/// voting opens only from the application stage and closes only from the
/// voting stage; nobody may reopen applications.
pub open spec fn stage_change_refusal(
    e: ElectionData,
    signer: Pubkey,
    new_stage: ElectionStage,
) -> Option<ElectionError> {
    if signer.bytes@ != e.initiator.bytes@ {
        Some(ElectionError::PrivilegeNotAllowed)
    } else if e.stage == ElectionStage::Closed {
        Some(ElectionError::ElectionIsClosed)
    } else {
        match new_stage {
            ElectionStage::Voting => if e.stage != ElectionStage::Application {
                Some(ElectionError::ApplicationIsClosed)
            } else {
                None
            },
            ElectionStage::Closed => if e.stage != ElectionStage::Voting {
                Some(ElectionError::NotAtVotingStage)
            } else {
                None
            },
            ElectionStage::Application => Some(ElectionError::PrivilegeNotAllowed),
        }
    }
}

/// The stage after an accepted request to move `e` to `new_stage`. Opening
/// the vote with no more applicants than seats closes the election at once.
pub open spec fn stage_after(e: ElectionData, new_stage: ElectionStage) -> ElectionStage {
    if new_stage == ElectionStage::Voting && e.candidates > e.winners_num {
        ElectionStage::Voting
    } else {
        ElectionStage::Closed
    }
}

/// Whether an accepted request to move `e` to `new_stage` seats every
/// applicant without a vote.
pub open spec fn closes_without_vote(e: ElectionData, new_stage: ElectionStage) -> bool {
    new_stage == ElectionStage::Voting && e.candidates <= e.winners_num
}

/// Starts an election with `winners` seats, run by the signer.
pub fn new_election(ctx: &mut CreateElection, winners: u8) -> (r: Result<
    ElectionCreated,
    ElectionError,
>)
    ensures
        winners == 0 ==> r == Err::<ElectionCreated, ElectionError>(
            ElectionError::WinnerCountNotAllowed,
        ) && *final(ctx) == *old(ctx),
        winners > 0 ==> r == Ok::<ElectionCreated, ElectionError>(
            ElectionCreated { initiator: old(ctx).signer, winners },
        ),
        winners > 0 ==> final(ctx).signer == old(ctx).signer
            && final(ctx).election_data.candidates == 0
            && final(ctx).election_data.stage == ElectionStage::Application
            && final(ctx).election_data.initiator == old(ctx).signer
            && final(ctx).election_data.winners_num == winners
            && final(ctx).election_data.winners_id@.len() == 0
            && final(ctx).election_data.winners_votes@.len() == 0,
        winners > 0 ==> final(ctx).election_data.well_formed(),
{
    if winners == 0 {
        return Err(ElectionError::WinnerCountNotAllowed);
    }
    ctx.election_data.candidates = 0;
    ctx.election_data.stage = ElectionStage::Application;
    ctx.election_data.initiator = ctx.signer;
    ctx.election_data.winners_num = winners;
    ctx.election_data.winners_id = Vec::new();
    ctx.election_data.winners_votes = Vec::new();
    assert(ctx.election_data.winners() =~= Seq::<(u64, u64)>::empty());
    Ok(ElectionCreated { initiator: ctx.signer, winners })
}

/// Applies the signer as a candidate while applications are open; the new
/// candidate's id is the count of applications so far, this one included.
pub fn apply(ctx: &mut Apply) -> (r: Result<CandidateApplied, ElectionError>)
    requires
        old(ctx).election_data.well_formed(),
        old(ctx).election_data.candidates < u64::MAX,
    ensures
        old(ctx).election_data.stage != ElectionStage::Application ==> r == Err::<
            CandidateApplied,
            ElectionError,
        >(ElectionError::ApplicationIsClosed) && *final(ctx) == *old(ctx),
        old(ctx).election_data.stage == ElectionStage::Application ==> r == Ok::<
            CandidateApplied,
            ElectionError,
        >(CandidateApplied { election: old(ctx).election_key, candidate: old(ctx).signer })
            && final(ctx).election_data == (ElectionData {
            candidates: (old(ctx).election_data.candidates + 1) as u64,
            ..old(ctx).election_data
        }) && final(ctx).candidate_identity == (CandidateIdentity {
            id: (old(ctx).election_data.candidates + 1) as u64,
            pubkey: old(ctx).signer,
        }) && final(ctx).election_key == old(ctx).election_key && final(ctx).signer == old(
            ctx,
        ).signer,
        final(ctx).election_data.well_formed(),
{
    if ctx.election_data.stage != ElectionStage::Application {
        return Err(ElectionError::ApplicationIsClosed);
    }
    ctx.election_data.candidates = ctx.election_data.candidates + 1;
    ctx.candidate_identity.id = ctx.election_data.candidates;
    ctx.candidate_identity.pubkey = ctx.signer;
    Ok(CandidateApplied { election: ctx.election_key, candidate: ctx.signer })
}

/// Registers the holder of a candidate identity as a votable candidate with
/// no votes. Only the identity's owner may do so; the stage is not checked.
pub fn register(ctx: &mut Register) -> (r: Result<CandidateRegistered, ElectionError>)
    ensures
        old(ctx).signer.bytes@ != old(ctx).candidate_identity.pubkey.bytes@ ==> r == Err::<
            CandidateRegistered,
            ElectionError,
        >(ElectionError::WrongPublicKey) && *final(ctx) == *old(ctx),
        old(ctx).signer.bytes@ == old(ctx).candidate_identity.pubkey.bytes@ ==> r == Ok::<
            CandidateRegistered,
            ElectionError,
        >(CandidateRegistered { candidate: old(ctx).signer, id: old(ctx).candidate_identity.id })
            && *final(ctx) == (Register {
            candidate_data: CandidateData {
                votes: 0,
                pubkey: old(ctx).signer,
                id: old(ctx).candidate_identity.id,
            },
            ..*old(ctx)
        }),
{
    if ctx.signer != ctx.candidate_identity.pubkey {
        return Err(ElectionError::WrongPublicKey);
    }
    ctx.candidate_data.votes = 0;
    ctx.candidate_data.pubkey = ctx.signer;
    ctx.candidate_data.id = ctx.candidate_identity.id;
    Ok(CandidateRegistered { candidate: ctx.signer, id: ctx.candidate_data.id })
}

/// Moves the election to `new_stage` on the initiator's request, as
/// `stage_change_refusal` and `stage_after` describe.
pub fn update_election_stage(ctx: &mut ChangeStage, new_stage: ElectionStage) -> (r: Result<
    ElectionStageChanged,
    ElectionError,
>)
    requires
        old(ctx).election_data.well_formed(),
    ensures
        stage_change_refusal(old(ctx).election_data, old(ctx).signer, new_stage) matches Some(err)
            ==> r == Err::<ElectionStageChanged, ElectionError>(err) && *final(ctx) == *old(ctx),
        stage_change_refusal(old(ctx).election_data, old(ctx).signer, new_stage) is None ==> r
            == Ok::<ElectionStageChanged, ElectionError>(
            ElectionStageChanged { election: old(ctx).election_key, new_stage },
        ) && final(ctx).election_data.stage == stage_after(old(ctx).election_data, new_stage)
            && final(ctx).election_data.winners_id@ == (if closes_without_vote(
            old(ctx).election_data,
            new_stage,
        ) {
            all_applicants(old(ctx).election_data.candidates as nat)
        } else {
            old(ctx).election_data.winners_id@
        }) && final(ctx).election_data.winners_votes@ == old(ctx).election_data.winners_votes@
            && final(ctx).election_data.candidates == old(ctx).election_data.candidates
            && final(ctx).election_data.initiator == old(ctx).election_data.initiator
            && final(ctx).election_data.winners_num == old(ctx).election_data.winners_num
            && final(ctx).election_key == old(ctx).election_key && final(ctx).signer == old(
            ctx,
        ).signer,
        final(ctx).election_data.well_formed(),
{
    if ctx.signer != ctx.election_data.initiator {
        return Err(ElectionError::PrivilegeNotAllowed);
    }
    if ctx.election_data.stage == ElectionStage::Closed {
        return Err(ElectionError::ElectionIsClosed);
    }
    match new_stage {
        ElectionStage::Voting => {
            ctx.election_data.close_application()?;
        },
        ElectionStage::Closed => {
            ctx.election_data.close_voting()?;
        },
        ElectionStage::Application => {
            return Err(ElectionError::PrivilegeNotAllowed);
        },
    }
    Ok(ElectionStageChanged { election: ctx.election_key, new_stage })
}

/// Casts the signer's vote for a registered candidate while voting is open:
/// the candidate gains a vote, the receipt names it, and the winners table
/// takes the vote in as `after_vote` describes.
pub fn vote(ctx: &mut Vote) -> (r: Result<VoteCast, ElectionError>)
    requires
        old(ctx).election_data.well_formed(),
        old(ctx).candidate_data.votes < u64::MAX,
        old(ctx).election_data.vote_fits(old(ctx).candidate_data.id),
    ensures
        old(ctx).election_data.stage != ElectionStage::Voting ==> r == Err::<
            VoteCast,
            ElectionError,
        >(ElectionError::NotAtVotingStage) && *final(ctx) == *old(ctx),
        old(ctx).election_data.stage == ElectionStage::Voting ==> r == Ok::<
            VoteCast,
            ElectionError,
        >(VoteCast { voter: old(ctx).signer, candidate: old(ctx).candidate_data.id })
            && final(ctx).candidate_data == (CandidateData {
            votes: (old(ctx).candidate_data.votes + 1) as u64,
            ..old(ctx).candidate_data
        }) && final(ctx).my_vote == (MyVote { id: old(ctx).candidate_data.id })
            && final(ctx).election_data.winners() == after_vote(
            old(ctx).election_data.winners(),
            old(ctx).election_data.winners_num as int,
            old(ctx).candidate_data.id,
            (old(ctx).candidate_data.votes + 1) as u64,
        ) && final(ctx).election_data.counts_paired()
            && final(ctx).election_data.stage == old(ctx).election_data.stage
            && final(ctx).election_data.candidates == old(ctx).election_data.candidates
            && final(ctx).election_data.initiator == old(ctx).election_data.initiator
            && final(ctx).election_data.winners_num == old(ctx).election_data.winners_num
            && final(ctx).signer == old(ctx).signer,
        final(ctx).election_data.well_formed(),
{
    if ctx.election_data.stage != ElectionStage::Voting {
        return Err(ElectionError::NotAtVotingStage);
    }
    ctx.candidate_data.votes = ctx.candidate_data.votes + 1;
    ctx.my_vote.id = ctx.candidate_data.id;
    ctx.election_data.record_vote(ctx.candidate_data.id, ctx.candidate_data.votes);
    Ok(VoteCast { voter: ctx.signer, candidate: ctx.candidate_data.id })
}

} // verus!
