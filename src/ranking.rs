use vstd::prelude::*;

verus! {

/// Votes of the entries in a ranking never increase from front to back.
pub open spec fn descending(s: Seq<(u64, u64)>) -> bool {
    forall|a: int, b: int| 0 <= a < b < s.len() ==> s[a].1 >= s[b].1
}

/// No candidate id appears twice in a ranking.
pub open spec fn distinct_ids(s: Seq<(u64, u64)>) -> bool {
    forall|a: int, b: int| 0 <= a < b < s.len() ==> s[a].0 != s[b].0
}

/// The candidate has an entry in the ranking.
pub open spec fn tracks(s: Seq<(u64, u64)>, id: u64) -> bool {
    exists|k: int| 0 <= k < s.len() && s[k].0 == id
}

/// The position of the candidate's entry in a ranking that tracks it.
pub open spec fn slot_of(s: Seq<(u64, u64)>, id: u64) -> int {
    choose|k: int| 0 <= k < s.len() && s[k].0 == id
}

/// The entry at `j` moved left, one swap at a time, past each neighbour that
/// has strictly fewer votes.
pub open spec fn bubble(s: Seq<(u64, u64)>, j: int) -> Seq<(u64, u64)>
    decreases j,
{
    if 0 < j < s.len() && s[j].1 > s[j - 1].1 {
        bubble(s.update(j - 1, s[j]).update(j, s[j - 1]), j - 1)
    } else {
        s
    }
}

/// Where the entry moved by `bubble(s, j)` comes to rest.
pub open spec fn bubble_stop(s: Seq<(u64, u64)>, j: int) -> int
    decreases j,
{
    if 0 < j < s.len() && s[j].1 > s[j - 1].1 {
        bubble_stop(s.update(j - 1, s[j]).update(j, s[j - 1]), j - 1)
    } else {
        j
    }
}

/// The ranking after a vote that brought candidate `id` to `votes`, in a
/// tracker that seats at most `cap` candidates.
///
/// A new candidate is appended while there is room; once the tracker is full
/// it takes the last seat only with strictly more votes than its holder, and
/// otherwise nothing changes. A tracked candidate gains one vote on its own
/// entry. The changed entry then moves forward past strictly lower counts.
pub open spec fn after_vote(s: Seq<(u64, u64)>, cap: int, id: u64, votes: u64) -> Seq<(u64, u64)> {
    if !tracks(s, id) {
        if s.len() < cap {
            bubble(s.push((id, votes)), s.len() as int)
        } else if votes > s[cap - 1].1 {
            bubble(s.update(cap - 1, (id, votes)), cap - 1)
        } else {
            s
        }
    } else {
        let k = slot_of(s, id);
        bubble(s.update(k, (id, (s[k].1 + 1) as u64)), k)
    }
}

/// The shape of `bubble(s, j)`: the entry at `j` is taken out and put back at
/// `bubble_stop(s, j)`; every entry it passed has strictly fewer votes, and the
/// one it stops behind has at least as many.
pub proof fn lemma_bubble_shape(s: Seq<(u64, u64)>, j: int)
    requires
        0 <= j < s.len(),
    ensures
        0 <= bubble_stop(s, j) <= j,
        bubble(s, j) =~= s.take(bubble_stop(s, j)) + seq![s[j]] + s.subrange(bubble_stop(s, j), j)
            + s.skip(j + 1),
        forall|i: int| bubble_stop(s, j) <= i < j ==> s[i].1 < s[j].1,
        bubble_stop(s, j) > 0 ==> s[bubble_stop(s, j) - 1].1 >= s[j].1,
    decreases j,
{
    if 0 < j && s[j].1 > s[j - 1].1 {
        let t = s.update(j - 1, s[j]).update(j, s[j - 1]);
        lemma_bubble_shape(t, j - 1);
        let p = bubble_stop(t, j - 1);
        assert(t.take(p) =~= s.take(p));
        assert(t.subrange(p, j - 1) + seq![t[j]] =~= s.subrange(p, j));
        assert(t.skip(j) =~= seq![s[j - 1]] + s.skip(j + 1));
        assert(bubble(s, j) =~= t.take(p) + seq![t[j - 1]] + t.subrange(p, j - 1) + t.skip(j));
        assert forall|i: int| p <= i < j implies s[i].1 < s[j].1 by {
            if i < j - 1 {
                assert(t[i] == s[i]);
            }
        }
        if p > 0 {
            if p < j - 1 {
                assert(t[p - 1] == s[p - 1]);
            }
        }
    } else {
        assert(s.take(j) + seq![s[j]] + s.subrange(j, j) + s.skip(j + 1) =~= s);
    }
}

/// `bubble` restores descending order to a ranking that is descending but at
/// `j`, whose entry has at least the votes of every entry behind it.
pub proof fn lemma_bubble_descending(s: Seq<(u64, u64)>, j: int)
    requires
        0 <= j < s.len(),
        forall|a: int, b: int| 0 <= a < b < s.len() && a != j && b != j ==> s[a].1 >= s[b].1,
        forall|b: int| j < b < s.len() ==> s[j].1 >= s[b].1,
    ensures
        descending(bubble(s, j)),
    decreases j,
{
    if 0 < j && s[j].1 > s[j - 1].1 {
        let t = s.update(j - 1, s[j]).update(j, s[j - 1]);
        assert forall|a: int, b: int| 0 <= a < b < t.len() && a != j - 1 && b != j - 1 implies t[a].1
            >= t[b].1 by {
            if a == j {
                assert(s[j - 1].1 >= s[b].1);
            } else if b == j {
                assert(s[a].1 >= s[j - 1].1);
            }
        }
        lemma_bubble_descending(t, j - 1);
    } else {
        assert forall|a: int, b: int| 0 <= a < b < s.len() implies s[a].1 >= s[b].1 by {
            if b == j && a < j - 1 {
                assert(s[a].1 >= s[j - 1].1);
            }
        }
    }
}

/// Where `bubble(s, j)` puts the entry found at `i`, when the moved entry
/// stops at `p`.
pub open spec fn moved_to(p: int, j: int, i: int) -> int {
    if i < p || i > j {
        i
    } else if i == j {
        p
    } else {
        i + 1
    }
}

/// Which entry of `s` ends at `k` in `bubble(s, j)`, when the moved entry
/// stops at `p`.
pub open spec fn moved_from(p: int, j: int, k: int) -> int {
    if k < p || k > j {
        k
    } else if k == p {
        j
    } else {
        k - 1
    }
}

/// `bubble` only reorders: every entry keeps its content, and ids stay
/// distinct.
pub proof fn lemma_bubble_keeps(s: Seq<(u64, u64)>, j: int)
    requires
        0 <= j < s.len(),
    ensures
        bubble(s, j).len() == s.len(),
        forall|i: int|
            0 <= i < s.len() ==> 0 <= #[trigger] moved_to(bubble_stop(s, j), j, i) < s.len()
                && bubble(s, j)[moved_to(bubble_stop(s, j), j, i)] == s[i],
        forall|k: int|
            0 <= k < s.len() ==> 0 <= #[trigger] moved_from(bubble_stop(s, j), j, k) < s.len()
                && bubble(s, j)[k] == s[moved_from(bubble_stop(s, j), j, k)]
                && moved_to(bubble_stop(s, j), j, moved_from(bubble_stop(s, j), j, k)) == k,
        distinct_ids(s) ==> distinct_ids(bubble(s, j)),
        forall|x: u64| tracks(bubble(s, j), x) <==> tracks(s, x),
{
    lemma_bubble_shape(s, j);
    let p = bubble_stop(s, j);
    let r = bubble(s, j);
    assert forall|i: int| 0 <= i < s.len() implies 0 <= #[trigger] moved_to(p, j, i) < s.len()
        && r[moved_to(p, j, i)] == s[i] by {
        if i < p {
            assert(r[i] == s.take(p)[i]);
        } else if i > j {
            assert(r[i] == s.skip(j + 1)[i - j - 1]);
        } else if i < j {
            assert(r[i + 1] == s.subrange(p, j)[i - p]);
        }
    }
    assert forall|k: int| 0 <= k < s.len() implies 0 <= #[trigger] moved_from(p, j, k) < s.len()
        && r[k] == s[moved_from(p, j, k)] && moved_to(p, j, moved_from(p, j, k)) == k by {
        let i = moved_from(p, j, k);
        assert(r[moved_to(p, j, i)] == s[i]);
    }
    if distinct_ids(s) {
        assert forall|a: int, b: int| 0 <= a < b < r.len() implies r[a].0 != r[b].0 by {
            let ia = moved_from(p, j, a);
            let ib = moved_from(p, j, b);
            assert(ia != ib);
        }
    }
    assert forall|x: u64| tracks(r, x) <==> tracks(s, x) by {
        if tracks(s, x) {
            let i = choose|i: int| 0 <= i < s.len() && s[i].0 == x;
            assert(r[moved_to(p, j, i)] == s[i]);
        }
        if tracks(r, x) {
            let k = choose|k: int| 0 <= k < r.len() && r[k].0 == x;
            assert(r[k] == s[moved_from(p, j, k)]);
        }
    }
}

/// The ranking after a run of votes, each a candidate id and the count it
/// reached, taken in order.
pub open spec fn after_votes(s: Seq<(u64, u64)>, cap: int, votes: Seq<(u64, u64)>) -> Seq<
    (u64, u64),
>
    decreases votes.len(),
{
    if votes.len() == 0 {
        s
    } else {
        let last = votes.last();
        after_vote(after_votes(s, cap, votes.drop_last()), cap, last.0, last.1)
    }
}

/// `bubble` keeps the order of every two entries, but that the moved entry
/// passes those with strictly fewer votes.
pub proof fn lemma_bubble_order(t: Seq<(u64, u64)>, j: int, a: int, b: int)
    requires
        0 <= j < t.len(),
        0 <= a < b < t.len(),
        b == j ==> t[j].1 <= t[a].1,
    ensures
        moved_to(bubble_stop(t, j), j, a) < moved_to(bubble_stop(t, j), j, b),
{
    lemma_bubble_shape(t, j);
}

/// In a ranking with distinct ids, the entry of a given id is at one place.
pub proof fn lemma_unique_slot(r: Seq<(u64, u64)>, k1: int, k2: int)
    requires
        distinct_ids(r),
        0 <= k1 < r.len(),
        0 <= k2 < r.len(),
        r[k1].0 == r[k2].0,
    ensures
        k1 == k2,
{
    if k1 < k2 {
        assert(r[k1].0 != r[k2].0);
    } else if k2 < k1 {
        assert(r[k2].0 != r[k1].0);
    }
}

} // verus!
