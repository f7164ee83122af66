use crate::election::all_applicants;
use crate::program::{closes_without_vote, stage_after, stage_change_refusal};
use crate::ranking::{
    after_vote, after_votes, bubble, bubble_stop, distinct_ids, lemma_bubble_keeps,
    lemma_bubble_order, lemma_unique_slot, moved_from, moved_to, slot_of, tracks,
};
use crate::state::{ElectionData, ElectionStage, Pubkey};
use vstd::prelude::*;

verus! {

/// One vote never leaves more entries than seats.
proof fn lemma_one_vote_capacity(s: Seq<(u64, u64)>, cap: int, id: u64, votes: u64)
    requires
        0 < cap,
        s.len() <= cap,
    ensures
        after_vote(s, cap, id, votes).len() <= cap,
{
    if !tracks(s, id) {
        if s.len() < cap {
            lemma_bubble_keeps(s.push((id, votes)), s.len() as int);
        } else if votes > s[cap - 1].1 {
            lemma_bubble_keeps(s.update(cap - 1, (id, votes)), cap - 1);
        }
    } else {
        let k = slot_of(s, id);
        lemma_bubble_keeps(s.update(k, (id, (s[k].1 + 1) as u64)), k);
    }
}

/// However many votes arrive, and in whatever order, the winners table never
/// holds more entries than there are seats.
pub proof fn capacity_kept(s: Seq<(u64, u64)>, cap: int, votes: Seq<(u64, u64)>)
    requires
        0 < cap,
        s.len() <= cap,
    ensures
        after_votes(s, cap, votes).len() <= cap,
    decreases votes.len(),
{
    if votes.len() > 0 {
        capacity_kept(s, cap, votes.drop_last());
        let last = votes.last();
        lemma_one_vote_capacity(after_votes(s, cap, votes.drop_last()), cap, last.0, last.1);
    }
}

/// In every well-formed election each vote count of the winners table is at
/// least the next one.
pub proof fn winners_sorted(e: ElectionData)
    requires
        e.well_formed(),
    ensures
        forall|i: int|
            0 <= i && i + 1 < e.winners_votes@.len() ==> #[trigger] e.winners_votes@[i]
                >= e.winners_votes@[i + 1],
        forall|i: int|
            0 <= i && i + 1 < e.winners().len() ==> #[trigger] e.winners()[i].1 >= e.winners()[i
                + 1].1,
{
    assert forall|i: int| 0 <= i && i + 1 < e.winners_votes@.len() implies #[trigger] e.winners_votes@[i]
        >= e.winners_votes@[i + 1] by {
        assert(e.winners()[i].1 >= e.winners()[i + 1].1);
    }
}

/// The order of stages.
pub open spec fn stage_rank(s: ElectionStage) -> int {
    match s {
        ElectionStage::Application => 0,
        ElectionStage::Voting => 1,
        ElectionStage::Closed => 2,
    }
}

/// Stages only move forward: a closed election refuses every change, an
/// accepted change never returns to applications and always moves on, and
/// applications lead straight to a closed election only when every applicant
/// can be seated.
pub proof fn stage_moves_forward(e: ElectionData, signer: Pubkey, new_stage: ElectionStage)
    ensures
        e.stage == ElectionStage::Closed ==> stage_change_refusal(e, signer, new_stage) is Some,
        stage_change_refusal(e, signer, new_stage) is None ==> stage_rank(stage_after(e, new_stage))
            > stage_rank(e.stage),
        stage_change_refusal(e, signer, new_stage) is None && e.stage == ElectionStage::Application
            && stage_after(e, new_stage) == ElectionStage::Closed ==> closes_without_vote(
            e,
            new_stage,
        ) && e.candidates <= e.winners_num,
{
}

/// Opening the vote with no more applicants than seats closes the election
/// with every applicant in the winners table, in order of application, each
/// with no votes.
pub proof fn auto_close_seats_everyone(e: ElectionData, signer: Pubkey, f: ElectionData)
    requires
        e.well_formed(),
        e.stage == ElectionStage::Application,
        signer.bytes@ == e.initiator.bytes@,
        e.candidates <= e.winners_num,
        f.stage == stage_after(e, ElectionStage::Voting),
        f.winners_id@ == all_applicants(e.candidates as nat),
        f.winners_votes@ == e.winners_votes@,
    ensures
        stage_change_refusal(e, signer, ElectionStage::Voting) is None,
        closes_without_vote(e, ElectionStage::Voting),
        f.stage == ElectionStage::Closed,
        f.winners().len() == e.candidates,
        forall|k: int| 0 <= k < e.candidates ==> f.winners()[k] == ((k + 1) as u64, 0u64),
        forall|c: u64| 1 <= c <= e.candidates ==> tracks(f.winners(), c),
{
    assert forall|c: u64| 1 <= c <= e.candidates implies tracks(f.winners(), c) by {
        assert(f.winners()[c - 1].0 == c);
    }
}

/// With every seat taken, a candidate not in the table enters it only with
/// strictly more votes than the last seat holds, and then takes exactly that
/// seat's place; with at most as many, nothing changes.
pub proof fn eviction_of_last(s: Seq<(u64, u64)>, cap: int, id: u64, votes: u64)
    requires
        0 < cap,
        s.len() == cap,
        distinct_ids(s),
        !tracks(s, id),
    ensures
        votes <= s[cap - 1].1 ==> after_vote(s, cap, id, votes) == s,
        votes > s[cap - 1].1 ==> {
            let r = after_vote(s, cap, id, votes);
            &&& r.len() == cap
            &&& tracks(r, id)
            &&& !tracks(r, s[cap - 1].0)
            &&& forall|k: int| 0 <= k < cap - 1 ==> tracks(r, s[k].0)
        },
{
    if votes > s[cap - 1].1 {
        let t = s.update(cap - 1, (id, votes));
        lemma_bubble_keeps(t, cap - 1);
        assert(t[cap - 1].0 == id);
        assert(tracks(t, id));
        assert(after_vote(s, cap, id, votes) == bubble(t, cap - 1));
        assert forall|k: int| 0 <= k < cap - 1 implies tracks(t, s[k].0) by {
            assert(t[k] == s[k]);
        }
        assert(!tracks(t, s[cap - 1].0)) by {
            if tracks(t, s[cap - 1].0) {
                let k = choose|k: int| 0 <= k < t.len() && t[k].0 == s[cap - 1].0;
                if k < cap - 1 {
                    assert(s[k].0 != s[cap - 1].0);
                }
            }
        }
    }
}

/// Putting an entry whose id is new, or the same as the one it replaces,
/// keeps ids distinct.
proof fn lemma_put_distinct(s: Seq<(u64, u64)>, k: int, e: (u64, u64))
    requires
        distinct_ids(s),
        0 <= k <= s.len(),
        forall|i: int| 0 <= i < s.len() && i != k ==> s[i].0 != e.0,
    ensures
        k < s.len() ==> distinct_ids(s.update(k, e)),
        k == s.len() ==> distinct_ids(s.push(e)),
{
    if k < s.len() {
        let t = s.update(k, e);
        assert forall|a: int, b: int| 0 <= a < b < t.len() implies t[a].0 != t[b].0 by {
            if a != k && b != k {
                assert(s[a].0 != s[b].0);
            }
        }
    } else {
        let t = s.push(e);
        assert forall|a: int, b: int| 0 <= a < b < t.len() implies t[a].0 != t[b].0 by {
            if b != k {
                assert(s[a].0 != s[b].0);
            }
        }
    }
}

/// A vote reorders the table only by moving the voted candidate forward past
/// those with strictly fewer votes: of two candidates that stay in the table,
/// the one ranked first keeps its lead, unless the other is the voted one and
/// now has strictly more votes. Among equal counts the earlier keeps its rank.
pub proof fn overtaken_only_by_more_votes(
    s: Seq<(u64, u64)>,
    cap: int,
    id: u64,
    votes: u64,
    a: int,
    b: int,
    a2: int,
    b2: int,
)
    requires
        0 < cap,
        s.len() <= cap,
        distinct_ids(s),
        0 <= a < b < s.len(),
        0 <= a2 < after_vote(s, cap, id, votes).len(),
        0 <= b2 < after_vote(s, cap, id, votes).len(),
        after_vote(s, cap, id, votes)[a2].0 == s[a].0,
        after_vote(s, cap, id, votes)[b2].0 == s[b].0,
        s[b].0 == id ==> after_vote(s, cap, id, votes)[b2].1 <= after_vote(s, cap, id, votes)[a2].1,
    ensures
        a2 < b2,
{
    let r = after_vote(s, cap, id, votes);
    if !tracks(s, id) {
        assert forall|i: int| 0 <= i < s.len() implies s[i].0 != id by {
            if s[i].0 == id {
                assert(tracks(s, id));
            }
        }
        if s.len() < cap {
            let j = s.len() as int;
            let t = s.push((id, votes));
            lemma_put_distinct(s, j, (id, votes));
            lemma_bubble_keeps(t, j);
            let p = bubble_stop(t, j);
            assert(t[a] == s[a] && t[b] == s[b]);
            lemma_unique_slot(r, a2, moved_to(p, j, a));
            lemma_unique_slot(r, b2, moved_to(p, j, b));
            lemma_bubble_order(t, j, a, b);
        } else if votes > s[cap - 1].1 {
            let j = cap - 1;
            let t = s.update(j, (id, votes));
            lemma_put_distinct(s, j, (id, votes));
            lemma_bubble_keeps(t, j);
            let p = bubble_stop(t, j);
            if b == j {
                let i = moved_from(p, j, b2);
                assert(r[b2] == t[i]);
                if i != j {
                    assert(t[i] == s[i]);
                    assert(s[i].0 != s[j].0);
                }
            }
            assert(t[a] == s[a] && t[b] == s[b]);
            lemma_unique_slot(r, a2, moved_to(p, j, a));
            lemma_unique_slot(r, b2, moved_to(p, j, b));
            lemma_bubble_order(t, j, a, b);
        } else {
            lemma_unique_slot(s, a2, a);
            lemma_unique_slot(s, b2, b);
        }
    } else {
        let j = slot_of(s, id);
        let t = s.update(j, (id, (s[j].1 + 1) as u64));
        assert(s[j].0 == id);
        assert forall|i: int| 0 <= i < s.len() && i != j implies s[i].0 != id by {
            if s[i].0 == id {
                lemma_unique_slot(s, i, j);
            }
        }
        lemma_put_distinct(s, j, (id, (s[j].1 + 1) as u64));
        lemma_bubble_keeps(t, j);
        let p = bubble_stop(t, j);
        if a != j {
            assert(t[a] == s[a]);
        }
        if b != j {
            assert(t[b] == s[b]);
        }
        lemma_unique_slot(r, a2, moved_to(p, j, a));
        lemma_unique_slot(r, b2, moved_to(p, j, b));
        if b == j {
            lemma_unique_slot(s, b, j);
        }
        lemma_bubble_order(t, j, a, b);
    }
}

} // verus!
