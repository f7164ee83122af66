use dao_voting::{
    apply, new_election, register, update_election_stage, vote, Apply, CandidateData,
    CandidateIdentity, ChangeStage, CreateElection, ElectionData, ElectionError, ElectionStage,
    MyVote, Pubkey, Register, Vote,
};

fn key(n: u8) -> Pubkey {
    Pubkey { bytes: [n; 32] }
}

fn blank() -> ElectionData {
    ElectionData {
        candidates: 0,
        stage: ElectionStage::Application,
        initiator: key(0),
        winners_num: 0,
        winners_id: Vec::new(),
        winners_votes: Vec::new(),
    }
}

fn create(initiator: Pubkey, winners: u8) -> ElectionData {
    let mut ctx = CreateElection { signer: initiator, election_data: blank() };
    new_election(&mut ctx, winners).unwrap();
    ctx.election_data
}

fn apply_as(e: ElectionData, who: Pubkey) -> (ElectionData, CandidateIdentity) {
    let mut ctx = Apply {
        candidate_identity: CandidateIdentity { id: 0, pubkey: key(0) },
        election_data: e,
        election_key: key(200),
        signer: who,
    };
    apply(&mut ctx).unwrap();
    (ctx.election_data, ctx.candidate_identity)
}

fn register_as(e: ElectionData, identity: CandidateIdentity) -> (ElectionData, CandidateData) {
    let mut ctx = Register {
        candidate_data: CandidateData { votes: 0, id: 0, pubkey: key(0) },
        election_data: e,
        candidate_identity: identity,
        signer: identity.pubkey,
    };
    register(&mut ctx).unwrap();
    (ctx.election_data, ctx.candidate_data)
}

fn change_stage(
    e: ElectionData,
    who: Pubkey,
    stage: ElectionStage,
) -> (ElectionData, Result<(), ElectionError>) {
    let mut ctx = ChangeStage { election_data: e, election_key: key(200), signer: who };
    let r = update_election_stage(&mut ctx, stage).map(|_| ());
    (ctx.election_data, r)
}

fn vote_for(
    e: ElectionData,
    c: CandidateData,
    voter: u8,
) -> (ElectionData, CandidateData, Result<(), ElectionError>) {
    let mut ctx = Vote {
        my_vote: MyVote { id: 0 },
        candidate_data: c,
        signer: key(voter),
        election_data: e,
    };
    let r = vote(&mut ctx).map(|v| {
        assert_eq!(v.candidate, c.id);
        assert_eq!(ctx.my_vote.id, c.id);
    });
    (ctx.election_data, ctx.candidate_data, r)
}

fn pairs(e: &ElectionData) -> Vec<(u64, u64)> {
    e.winners_id.iter().zip(e.winners_votes.iter()).map(|(a, b)| (*a, *b)).collect()
}

/// An election in the voting stage with `n` registered candidates and `cap` seats.
fn voting_election(cap: u8, n: u8) -> (ElectionData, Vec<CandidateData>) {
    let boss = key(1);
    let mut e = create(boss, cap);
    let mut ids = Vec::new();
    for i in 0..n {
        let (e2, id) = apply_as(e, key(10 + i));
        e = e2;
        ids.push(id);
    }
    let mut cands = Vec::new();
    for id in ids {
        let (e2, c) = register_as(e, id);
        e = e2;
        cands.push(c);
    }
    let (e2, r) = change_stage(e, boss, ElectionStage::Voting);
    assert_eq!(r, Ok(()));
    assert_eq!(e2.stage, ElectionStage::Voting);
    (e2, cands)
}

#[test]
fn new_election_starts_in_application() {
    let mut ctx = CreateElection { signer: key(7), election_data: blank() };
    let ev = new_election(&mut ctx, 3).unwrap();
    assert_eq!(ev.initiator, key(7));
    assert_eq!(ev.winners, 3);
    let e = ctx.election_data;
    assert_eq!(e.candidates, 0);
    assert_eq!(e.stage, ElectionStage::Application);
    assert_eq!(e.initiator, key(7));
    assert_eq!(e.winners_num, 3);
    assert!(e.winners_id.is_empty());
    assert!(e.winners_votes.is_empty());
}

#[test]
fn new_election_refuses_zero_seats() {
    let mut ctx = CreateElection { signer: key(7), election_data: blank() };
    assert_eq!(new_election(&mut ctx, 0).unwrap_err(), ElectionError::WinnerCountNotAllowed);
    assert_eq!(ctx.election_data.winners_num, 0);
}

#[test]
fn apply_assigns_sequential_ids() {
    let e = create(key(1), 2);
    let (e, first) = apply_as(e, key(10));
    let (e, second) = apply_as(e, key(11));
    assert_eq!(first.id, 1);
    assert_eq!(first.pubkey, key(10));
    assert_eq!(second.id, 2);
    assert_eq!(second.pubkey, key(11));
    assert_eq!(e.candidates, 2);
}

#[test]
fn apply_event_names_election_and_candidate() {
    let mut ctx = Apply {
        candidate_identity: CandidateIdentity { id: 0, pubkey: key(0) },
        election_data: create(key(1), 2),
        election_key: key(200),
        signer: key(10),
    };
    let ev = apply(&mut ctx).unwrap();
    assert_eq!(ev.election, key(200));
    assert_eq!(ev.candidate, key(10));
}

#[test]
fn apply_after_applications_close_is_refused() {
    let (e, _) = voting_election(1, 2);
    let mut ctx = Apply {
        candidate_identity: CandidateIdentity { id: 0, pubkey: key(0) },
        election_data: e,
        election_key: key(200),
        signer: key(50),
    };
    assert_eq!(apply(&mut ctx).unwrap_err(), ElectionError::ApplicationIsClosed);
    assert_eq!(ctx.election_data.candidates, 2);
    assert_eq!(ctx.candidate_identity.id, 0);
}

#[test]
fn register_creates_candidate_with_no_votes() {
    let (e, identity) = apply_as(create(key(1), 2), key(10));
    let mut ctx = Register {
        candidate_data: CandidateData { votes: 9, id: 0, pubkey: key(0) },
        election_data: e,
        candidate_identity: identity,
        signer: key(10),
    };
    let ev = register(&mut ctx).unwrap();
    assert_eq!(ev.id, 1);
    assert_eq!(ev.candidate, key(10));
    assert_eq!(ctx.candidate_data.votes, 0);
    assert_eq!(ctx.candidate_data.id, 1);
    assert_eq!(ctx.candidate_data.pubkey, key(10));
}

#[test]
fn register_by_another_key_is_refused() {
    let (e, identity) = apply_as(create(key(1), 2), key(10));
    let mut ctx = Register {
        candidate_data: CandidateData { votes: 9, id: 0, pubkey: key(0) },
        election_data: e,
        candidate_identity: identity,
        signer: key(11),
    };
    assert_eq!(register(&mut ctx).unwrap_err(), ElectionError::WrongPublicKey);
    assert_eq!(ctx.candidate_data.votes, 9);
}

#[test]
fn stage_change_by_non_initiator_is_refused() {
    let (e, _) = apply_as(create(key(1), 1), key(10));
    let (e, r) = change_stage(e, key(2), ElectionStage::Voting);
    assert_eq!(r, Err(ElectionError::PrivilegeNotAllowed));
    assert_eq!(e.stage, ElectionStage::Application);
}

#[test]
fn reopening_applications_is_refused() {
    let (e, r) = change_stage(create(key(1), 1), key(1), ElectionStage::Application);
    assert_eq!(r, Err(ElectionError::PrivilegeNotAllowed));
    assert_eq!(e.stage, ElectionStage::Application);
    let (e, _) = voting_election(1, 2);
    let (e, r) = change_stage(e, key(1), ElectionStage::Application);
    assert_eq!(r, Err(ElectionError::PrivilegeNotAllowed));
    assert_eq!(e.stage, ElectionStage::Voting);
}

#[test]
fn closing_during_applications_is_refused() {
    let (e, r) = change_stage(create(key(1), 1), key(1), ElectionStage::Closed);
    assert_eq!(r, Err(ElectionError::NotAtVotingStage));
    assert_eq!(e.stage, ElectionStage::Application);
}

#[test]
fn opening_voting_twice_is_refused() {
    let (e, _) = voting_election(1, 2);
    let (e, r) = change_stage(e, key(1), ElectionStage::Voting);
    assert_eq!(r, Err(ElectionError::ApplicationIsClosed));
    assert_eq!(e.stage, ElectionStage::Voting);
}

fn closed_after_vote() -> ElectionData {
    let (e, _) = voting_election(1, 2);
    let (e, r) = change_stage(e, key(1), ElectionStage::Closed);
    assert_eq!(r, Ok(()));
    assert_eq!(e.stage, ElectionStage::Closed);
    e
}

#[test]
fn closed_election_refuses_every_change() {
    for s in [ElectionStage::Application, ElectionStage::Voting, ElectionStage::Closed] {
        let (e, r) = change_stage(closed_after_vote(), key(1), s);
        assert_eq!(r, Err(ElectionError::ElectionIsClosed));
        assert_eq!(e.stage, ElectionStage::Closed);
    }
}

#[test]
fn stage_change_event_names_requested_stage() {
    let (e, _) = apply_as(create(key(1), 1), key(10));
    let (e, _) = apply_as(e, key(11));
    let mut ctx = ChangeStage { election_data: e, election_key: key(200), signer: key(1) };
    let ev = update_election_stage(&mut ctx, ElectionStage::Voting).unwrap();
    assert_eq!(ev.election, key(200));
    assert_eq!(ev.new_stage, ElectionStage::Voting);
}

#[test]
fn vote_outside_voting_is_refused() {
    let (e, identity) = apply_as(create(key(1), 1), key(10));
    let (e, c) = register_as(e, identity);
    let (e, c, r) = vote_for(e, c, 90);
    assert_eq!(r, Err(ElectionError::NotAtVotingStage));
    assert_eq!(c.votes, 0);
    assert!(e.winners_id.is_empty());
    let (e, c, r) = vote_for(closed_after_vote(), c, 91);
    assert_eq!(r, Err(ElectionError::NotAtVotingStage));
    assert_eq!(c.votes, 0);
    assert!(e.winners_id.is_empty());
}

#[test]
fn three_candidates_two_seats() {
    let (mut e, mut cands) = voting_election(2, 3);
    assert_eq!(e.stage, ElectionStage::Voting);
    let mut voter: u8 = 100;
    let mut cast = |e: ElectionData, c: CandidateData| {
        voter += 1;
        let (e, c, r) = vote_for(e, c, voter);
        assert_eq!(r, Ok(()));
        (e, c)
    };
    let (e2, c2) = cast(e, cands[1]);
    e = e2;
    cands[1] = c2;
    assert_eq!(pairs(&e), vec![(2, 1)]);
    for _ in 0..2 {
        let (e2, c3) = cast(e, cands[2]);
        e = e2;
        cands[2] = c3;
    }
    assert_eq!(pairs(&e), vec![(3, 2), (2, 1)]);
    for _ in 0..3 {
        let (e2, c1) = cast(e, cands[0]);
        e = e2;
        cands[0] = c1;
    }
    assert_eq!(pairs(&e), vec![(1, 3), (3, 2)]);
    assert_eq!(cands[0].votes, 3);
    let (e, r) = change_stage(e, key(1), ElectionStage::Closed);
    assert_eq!(r, Ok(()));
    assert_eq!(e.stage, ElectionStage::Closed);
    assert_eq!(e.winners_id, vec![1, 3]);
}

#[test]
fn two_applicants_two_seats_close_at_once() {
    let e = create(key(1), 2);
    let (e, _) = apply_as(e, key(10));
    let (e, _) = apply_as(e, key(11));
    let (e, r) = change_stage(e, key(1), ElectionStage::Voting);
    assert_eq!(r, Ok(()));
    assert_eq!(e.stage, ElectionStage::Closed);
    assert_eq!(e.winners_id, vec![1, 2]);
    assert!(e.winners_votes.is_empty());
}

#[test]
fn fewer_applicants_than_seats_close_at_once() {
    let (e, _) = apply_as(create(key(1), 3), key(10));
    let (e, r) = change_stage(e, key(1), ElectionStage::Voting);
    assert_eq!(r, Ok(()));
    assert_eq!(e.stage, ElectionStage::Closed);
    assert_eq!(e.winners_id, vec![1]);
}

#[test]
fn no_applicants_close_at_once() {
    let (e, r) = change_stage(create(key(1), 3), key(1), ElectionStage::Voting);
    assert_eq!(r, Ok(()));
    assert_eq!(e.stage, ElectionStage::Closed);
    assert!(e.winners_id.is_empty());
}

fn tracker(cap: u8, entries: &[(u64, u64)]) -> ElectionData {
    ElectionData {
        candidates: 10,
        stage: ElectionStage::Voting,
        initiator: key(1),
        winners_num: cap,
        winners_id: entries.iter().map(|p| p.0).collect(),
        winners_votes: entries.iter().map(|p| p.1).collect(),
    }
}

#[test]
fn record_vote_appends_while_room() {
    let mut e = tracker(3, &[(4, 5)]);
    e.record_vote(7, 2);
    assert_eq!(pairs(&e), vec![(4, 5), (7, 2)]);
    e.record_vote(8, 9);
    assert_eq!(pairs(&e), vec![(8, 9), (4, 5), (7, 2)]);
}

#[test]
fn record_vote_evicts_only_on_strictly_more() {
    let mut e = tracker(2, &[(1, 5), (2, 3)]);
    e.record_vote(9, 3);
    assert_eq!(pairs(&e), vec![(1, 5), (2, 3)]);
    e.record_vote(9, 2);
    assert_eq!(pairs(&e), vec![(1, 5), (2, 3)]);
    e.record_vote(9, 4);
    assert_eq!(pairs(&e), vec![(1, 5), (9, 4)]);
    e.record_vote(8, 7);
    assert_eq!(pairs(&e), vec![(8, 7), (1, 5)]);
}

#[test]
fn record_vote_increments_tracked_copy() {
    let mut e = tracker(3, &[(1, 5), (2, 3)]);
    e.record_vote(2, 100);
    assert_eq!(pairs(&e), vec![(1, 5), (2, 4)]);
    e.record_vote(2, 100);
    assert_eq!(pairs(&e), vec![(1, 5), (2, 5)]);
    e.record_vote(2, 100);
    assert_eq!(pairs(&e), vec![(2, 6), (1, 5)]);
}

#[test]
fn ties_keep_the_earlier_first() {
    let mut e = tracker(3, &[(1, 2), (2, 1), (3, 1)]);
    e.record_vote(3, 2);
    assert_eq!(pairs(&e), vec![(1, 2), (3, 2), (2, 1)]);
    e.record_vote(2, 2);
    assert_eq!(pairs(&e), vec![(1, 2), (3, 2), (2, 2)]);
    e.record_vote(2, 3);
    assert_eq!(pairs(&e), vec![(2, 3), (1, 2), (3, 2)]);
}

#[test]
fn many_votes_stay_bounded_and_sorted() {
    let mut e = tracker(3, &[]);
    let mut counts = [0u64; 8];
    for step in 0..200u64 {
        let c = ((step * 7 + step / 3) % 8) as usize;
        counts[c] += 1;
        e.record_vote(c as u64 + 1, counts[c]);
        assert!(e.winners_id.len() <= 3);
        assert_eq!(e.winners_id.len(), e.winners_votes.len());
        for i in 1..e.winners_votes.len() {
            assert!(e.winners_votes[i - 1] >= e.winners_votes[i]);
        }
    }
    assert_eq!(e.winners_id.len(), 3);
}
