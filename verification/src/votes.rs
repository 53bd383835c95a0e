//! Vote bookkeeping for one taxonomy link.
//!
//! A [`TaxonomyLink`] carries the recorded votes together with the two
//! aggregate counters, and the well-formedness predicate [`tally_wf`] is the
//! central invariant: `upvote_count` equals the signed sum of the recorded
//! scores and `vote_count` equals their number. Casting and removing votes
//! preserve it.
use vstd::prelude::*;

use crate::model::{Property, Source, Status};

verus! {

/// One recorded vote: the voting user and a score of +1 or -1.
#[derive(Clone, Debug)]
pub struct Vote {
    pub user: String,
    pub score: i8,
}

/// Ghost state of one link's votes: the recorded (user, score) pairs and the
/// two counters that must stay in step with them.
#[verifier::ext_equal]
pub ghost struct LinkTally {
    pub votes: Seq<(Seq<char>, int)>,
    pub upvote_count: int,
    pub vote_count: int,
}

/// The signed sum of the recorded scores.
pub open spec fn sum_scores(votes: Seq<(Seq<char>, int)>) -> int
    decreases votes.len(),
{
    if votes.len() == 0 {
        0
    } else {
        sum_scores(votes.drop_last()) + votes.last().1
    }
}

/// No user appears twice.
pub open spec fn users_unique(votes: Seq<(Seq<char>, int)>) -> bool {
    forall|i: int, j: int| 0 <= i < j < votes.len() ==> votes[i].0 != votes[j].0
}

/// Every recorded score is +1 or -1.
pub open spec fn scores_valid(votes: Seq<(Seq<char>, int)>) -> bool {
    forall|i: int| 0 <= i < votes.len() ==> (votes[i].1 == 1 || votes[i].1 == -1)
}

/// The invariant that must hold of a link after every operation:
/// `upvote_count` is the signed sum of the recorded scores and `vote_count`
/// is their number, users vote at most once, scores are +1 or -1.
pub open spec fn tally_wf(m: LinkTally) -> bool {
    &&& m.upvote_count == sum_scores(m.votes)
    &&& m.vote_count == m.votes.len()
    &&& users_unique(m.votes)
    &&& scores_valid(m.votes)
}

/// Index of the first vote by `user`, or -1 if the user has not voted.
pub open spec fn vote_idx(votes: Seq<(Seq<char>, int)>, user: Seq<char>) -> int
    decreases votes.len(),
{
    if votes.len() == 0 {
        -1
    } else if votes[0].0 == user {
        0
    } else {
        let r = vote_idx(votes.drop_first(), user);
        if r < 0 {
            -1
        } else {
            r + 1
        }
    }
}

/// The state after upserting a vote by `user` with `score` and reconciling
/// the counters in the same step: a fresh vote counts once and adds its
/// score; a changed vote swaps its score into the sum and leaves the count
/// alone; a repeated identical vote changes nothing.
pub open spec fn apply_cast(m: LinkTally, user: Seq<char>, score: int) -> LinkTally {
    let i = vote_idx(m.votes, user);
    if i < 0 {
        LinkTally {
            votes: m.votes.push((user, score)),
            upvote_count: m.upvote_count + score,
            vote_count: m.vote_count + 1,
        }
    } else if m.votes[i].1 == score {
        m
    } else {
        LinkTally {
            votes: m.votes.update(i, (user, score)),
            upvote_count: m.upvote_count - m.votes[i].1 + score,
            vote_count: m.vote_count,
        }
    }
}

/// The state after deleting `user`'s vote, if any: the vote's score leaves
/// the sum, the count drops by one (never below zero), and removing a vote
/// that was never cast changes nothing.
pub open spec fn apply_remove(m: LinkTally, user: Seq<char>) -> LinkTally {
    let i = vote_idx(m.votes, user);
    if i < 0 {
        m
    } else {
        LinkTally {
            votes: m.votes.remove(i),
            upvote_count: m.upvote_count - m.votes[i].1,
            vote_count: if m.vote_count > 0 {
                m.vote_count - 1
            } else {
                0
            },
        }
    }
}

pub proof fn lemma_sum_push(votes: Seq<(Seq<char>, int)>, v: (Seq<char>, int))
    ensures
        sum_scores(votes.push(v)) == sum_scores(votes) + v.1,
{
    assert(votes.push(v).drop_last() =~= votes);
}

pub proof fn lemma_sum_update(votes: Seq<(Seq<char>, int)>, i: int, v: (Seq<char>, int))
    requires
        0 <= i < votes.len(),
    ensures
        sum_scores(votes.update(i, v)) == sum_scores(votes) - votes[i].1 + v.1,
    decreases votes.len(),
{
    if i == votes.len() - 1 {
        assert(votes.update(i, v).drop_last() =~= votes.drop_last());
    } else {
        assert(votes.update(i, v).drop_last() =~= votes.drop_last().update(i, v));
        lemma_sum_update(votes.drop_last(), i, v);
    }
}

pub proof fn lemma_sum_remove(votes: Seq<(Seq<char>, int)>, i: int)
    requires
        0 <= i < votes.len(),
    ensures
        sum_scores(votes.remove(i)) == sum_scores(votes) - votes[i].1,
    decreases votes.len(),
{
    if i == votes.len() - 1 {
        assert(votes.remove(i) =~= votes.drop_last());
    } else {
        assert(votes.remove(i).drop_last() =~= votes.drop_last().remove(i));
        lemma_sum_remove(votes.drop_last(), i);
    }
}

/// The sum of scores that are each +1 or -1 is bounded by the vote count.
pub proof fn lemma_sum_bounded(votes: Seq<(Seq<char>, int)>)
    requires
        scores_valid(votes),
    ensures
        -votes.len() <= sum_scores(votes) <= votes.len(),
    decreases votes.len(),
{
    if votes.len() > 0 {
        assert(scores_valid(votes.drop_last()));
        lemma_sum_bounded(votes.drop_last());
    }
}

/// What `vote_idx` finds: -1 exactly when the user has no vote, and
/// otherwise the first index holding the user's vote.
pub proof fn lemma_vote_idx(votes: Seq<(Seq<char>, int)>, user: Seq<char>)
    ensures
        vote_idx(votes, user) == -1 <==> (forall|j: int|
            0 <= j < votes.len() ==> votes[j].0 != user),
        vote_idx(votes, user) != -1 ==> 0 <= vote_idx(votes, user) < votes.len(),
        vote_idx(votes, user) != -1 ==> votes[vote_idx(votes, user)].0 == user,
        forall|j: int| 0 <= j < vote_idx(votes, user) ==> votes[j].0 != user,
    decreases votes.len(),
{
    if votes.len() == 0 {
    } else if votes[0].0 == user {
    } else {
        let rest = votes.drop_first();
        lemma_vote_idx(rest, user);
        assert(forall|j: int| 0 <= j < rest.len() ==> rest[j] == votes[j + 1]);
        let r = vote_idx(rest, user);
        if r == -1 {
            assert forall|j: int| 0 <= j < votes.len() implies votes[j].0 != user by {
                if j > 0 {
                    assert(votes[j] == rest[j - 1]);
                }
            }
        } else {
            assert(votes[r + 1] == rest[r]);
            assert forall|j: int| 0 <= j < r + 1 implies votes[j].0 != user by {
                if j > 0 {
                    assert(votes[j] == rest[j - 1]);
                }
            }
        }
    }
}

/// A first match pins `vote_idx` down: if index `i` holds the user's vote
/// and no earlier index does, then `vote_idx` is `i`.
pub proof fn lemma_vote_idx_is(votes: Seq<(Seq<char>, int)>, user: Seq<char>, i: int)
    requires
        0 <= i < votes.len(),
        votes[i].0 == user,
        forall|j: int| 0 <= j < i ==> votes[j].0 != user,
    ensures
        vote_idx(votes, user) == i,
{
    lemma_vote_idx(votes, user);
    let r = vote_idx(votes, user);
    if r == -1 {
        assert(votes[i].0 != user);
    } else if r < i {
        assert(votes[r].0 != user);
    } else if r > i {
        assert(votes[i].0 != user);
    }
}

/// Casting preserves the link invariant.
pub proof fn lemma_cast_preserves_wf(m: LinkTally, user: Seq<char>, score: int)
    requires
        tally_wf(m),
        score == 1 || score == -1,
    ensures
        tally_wf(apply_cast(m, user, score)),
{
    lemma_vote_idx(m.votes, user);
    let i = vote_idx(m.votes, user);
    if i < 0 {
        lemma_sum_push(m.votes, (user, score));
        let pushed = m.votes.push((user, score));
        assert forall|a: int, b: int| 0 <= a < b < pushed.len() implies pushed[a].0 != pushed[b].0 by {
            if b == pushed.len() - 1 {
                assert(pushed[a].0 == m.votes[a].0);
            }
        }
    } else if m.votes[i].1 == score {
    } else {
        lemma_sum_update(m.votes, i, (user, score));
        let updated = m.votes.update(i, (user, score));
        assert forall|a: int, b: int| 0 <= a < b < updated.len() implies updated[a].0
            != updated[b].0 by {
            assert(m.votes[a].0 != m.votes[b].0);
        }
    }
}

/// Removal preserves the link invariant.
pub proof fn lemma_remove_preserves_wf(m: LinkTally, user: Seq<char>)
    requires
        tally_wf(m),
    ensures
        tally_wf(apply_remove(m, user)),
{
    lemma_vote_idx(m.votes, user);
    let i = vote_idx(m.votes, user);
    if i >= 0 {
        lemma_sum_remove(m.votes, i);
        let removed = m.votes.remove(i);
        assert forall|a: int, b: int| 0 <= a < b < removed.len() implies removed[a].0
            != removed[b].0 by {
            let a0: int = if a < i {
                a
            } else {
                a + 1
            };
            let b0: int = if b < i {
                b
            } else {
                b + 1
            };
            assert(removed[a] == m.votes[a0]);
            assert(removed[b] == m.votes[b0]);
        }
        assert forall|a: int| 0 <= a < removed.len() implies (removed[a].1 == 1 || removed[a].1
            == -1) by {
            let a0: int = if a < i {
                a
            } else {
                a + 1
            };
            assert(removed[a] == m.votes[a0]);
        }
    }
}

/// Casting the same score twice for the same user is idempotent: the second
/// cast changes neither the votes nor the counters.
pub proof fn lemma_cast_idempotent(m: LinkTally, user: Seq<char>, score: int)
    requires
        tally_wf(m),
        score == 1 || score == -1,
    ensures
        apply_cast(apply_cast(m, user, score), user, score) == apply_cast(m, user, score),
{
    lemma_vote_idx(m.votes, user);
    let i = vote_idx(m.votes, user);
    let m1 = apply_cast(m, user, score);
    if i < 0 {
        let n = m.votes.len() as int;
        assert forall|j: int| 0 <= j < n implies m1.votes[j].0 != user by {
            assert(m1.votes[j] == m.votes[j]);
        }
        lemma_vote_idx_is(m1.votes, user, n);
    } else if m.votes[i].1 == score {
    } else {
        assert forall|j: int| 0 <= j < i implies m1.votes[j].0 != user by {
            assert(m1.votes[j] == m.votes[j]);
        }
        lemma_vote_idx_is(m1.votes, user, i);
        assert(apply_cast(m1, user, score) =~= m1);
    }
}

/// Changing a recorded vote to the opposite score moves `upvote_count` by
/// twice the new score (so +1 to -1 moves it by -2) and leaves `vote_count`
/// unchanged.
pub proof fn lemma_cast_flip(m: LinkTally, user: Seq<char>, score: int)
    requires
        tally_wf(m),
        score == 1 || score == -1,
        vote_idx(m.votes, user) >= 0,
        m.votes[vote_idx(m.votes, user)].1 == -score,
    ensures
        apply_cast(m, user, score).upvote_count == m.upvote_count + 2 * score,
        apply_cast(m, user, score).vote_count == m.vote_count,
{
}

/// Removing a vote that was never cast is a no-op.
pub proof fn lemma_remove_absent(m: LinkTally, user: Seq<char>)
    requires
        vote_idx(m.votes, user) == -1,
    ensures
        apply_remove(m, user) == m,
{
}

/// One vote operation, for stating facts about whole histories.
pub ghost enum VoteOp {
    Cast { user: Seq<char>, score: int },
    Remove { user: Seq<char> },
}

/// Whether every cast in a history carries a legal score.
pub open spec fn ops_valid(ops: Seq<VoteOp>) -> bool {
    forall|i: int|
        0 <= i < ops.len() ==> match #[trigger] ops[i] {
            VoteOp::Cast { user, score } => score == 1 || score == -1,
            VoteOp::Remove { user } => true,
        }
}

/// The tally a history of operations leaves behind.
pub open spec fn apply_ops(m: LinkTally, ops: Seq<VoteOp>) -> LinkTally
    decreases ops.len(),
{
    if ops.len() == 0 {
        m
    } else {
        let rest = apply_ops(m, ops.drop_last());
        match ops.last() {
            VoteOp::Cast { user, score } => apply_cast(rest, user, score),
            VoteOp::Remove { user } => apply_remove(rest, user),
        }
    }
}

/// For every vote history on one link, the invariant holds after each
/// operation: starting from any well-formed tally, in particular the empty
/// one with both counters zero, every prefix of legal operations leaves
/// `upvote_count` equal to the signed sum of the recorded scores and
/// `vote_count` equal to their number.
pub proof fn lemma_history_preserves_wf(m: LinkTally, ops: Seq<VoteOp>)
    requires
        tally_wf(m),
        ops_valid(ops),
    ensures
        tally_wf(apply_ops(m, ops)),
    decreases ops.len(),
{
    if ops.len() > 0 {
        assert(ops_valid(ops.drop_last())) by {
            assert(forall|i: int|
                0 <= i < ops.len() - 1 ==> ops.drop_last()[i] == ops[i]);
        }
        lemma_history_preserves_wf(m, ops.drop_last());
        let rest = apply_ops(m, ops.drop_last());
        match ops.last() {
            VoteOp::Cast { user, score } => {
                lemma_cast_preserves_wf(rest, user, score);
            },
            VoteOp::Remove { user } => {
                lemma_remove_preserves_wf(rest, user);
            },
        }
    }
}

/// A taxonomy link: the edge between an item and a property, carrying the
/// recorded votes and the counters the invariant ties to them.
#[derive(Clone, Debug)]
pub struct TaxonomyLink {
    /// Stable id of the item this link belongs to.
    pub item: String,
    pub property: Property,
    /// Reasoning or justification for an inclusion.
    pub note: Option<String>,
    pub status: Status,
    pub source: Source<String>,
    /// The signed sum of the recorded scores.
    pub upvote_count: i64,
    /// The number of recorded votes.
    pub vote_count: u64,
    pub votes: Vec<Vote>,
}

impl TaxonomyLink {
    /// The ghost tally this link represents.
    pub open spec fn tally(&self) -> LinkTally {
        LinkTally {
            votes: self.votes@.map_values(|v: Vote| (v.user@, v.score as int)),
            upvote_count: self.upvote_count as int,
            vote_count: self.vote_count as int,
        }
    }

    /// The link invariant, together with the machine bound that keeps the
    /// signed sum inside its 64-bit counter.
    pub open spec fn wf(&self) -> bool {
        &&& tally_wf(self.tally())
        &&& self.votes@.len() <= i64::MAX
    }

    /// A fresh link: given endpoints, note and source, Pending status, no
    /// votes, both counters zero.
    pub fn new(item: String, property: Property, note: Option<String>, source: Source<String>) -> (l:
        TaxonomyLink)
        ensures
            l.wf(),
            l.item@ == item@,
            l.property == property,
            l.note == note,
            l.status == Status::Pending,
            l.source == source,
            l.upvote_count == 0,
            l.vote_count == 0,
            l.votes@.len() == 0,
    {
        let l = TaxonomyLink {
            item,
            property,
            note,
            status: Status::Pending,
            source,
            upvote_count: 0,
            vote_count: 0,
            votes: Vec::new(),
        };
        proof {
            assert(l.tally().votes =~= Seq::<(Seq<char>, int)>::empty());
        }
        l
    }

    /// Upsert `user`'s vote and reconcile the counters in the same step, as
    /// [`apply_cast`] describes. Everything but the votes and counters stays
    /// as it was.
    pub fn cast_vote(&mut self, user: String, score: i8)
        requires
            old(self).wf(),
            score == 1 || score == -1,
            old(self).votes@.len() + 1 <= i64::MAX,
        ensures
            final(self).wf(),
            final(self).tally() == apply_cast(old(self).tally(), user@, score as int),
            final(self).item == old(self).item,
            final(self).property == old(self).property,
            final(self).note == old(self).note,
            final(self).status == old(self).status,
            final(self).source == old(self).source,
    {
        let ghost m = self.tally();
        proof {
            lemma_vote_idx(m.votes, user@);
            lemma_cast_preserves_wf(m, user@, score as int);
            lemma_sum_bounded(m.votes);
        }
        let n = self.votes.len();
        let mut i: usize = 0;
        while i < n
            invariant
                *self == *old(self),
                self.wf(),
                n == self.votes.len(),
                n + 1 <= i64::MAX,
                i <= n,
                m == self.tally(),
                score == 1 || score == -1,
                forall|j: int| 0 <= j < i ==> m.votes[j].0 != user@,
            decreases n - i,
        {
            proof {
                assert(m.votes[i as int] == (self.votes@[i as int].user@, self.votes@[
                    i as int
                ].score as int));
            }
            if self.votes[i].user == user {
                proof {
                    lemma_vote_idx_is(m.votes, user@, i as int);
                    lemma_sum_bounded(m.votes);
                }
                let prior = self.votes[i].score;
                if prior != score {
                    proof {
                        lemma_sum_update(m.votes, i as int, (user@, score as int));
                        lemma_cast_preserves_wf(m, user@, score as int);
                        lemma_sum_remove(m.votes, i as int);
                        let rest = m.votes.remove(i as int);
                        assert forall|a: int| 0 <= a < rest.len() implies (rest[a].1 == 1
                            || rest[a].1 == -1) by {
                            let a0: int = if a < i {
                                a
                            } else {
                                a + 1
                            };
                            assert(rest[a] == m.votes[a0]);
                        }
                        lemma_sum_bounded(rest);
                    }
                    self.upvote_count = self.upvote_count - (prior as i64) + (score as i64);
                    self.votes.set(i, Vote { user, score });
                    proof {
                        assert(self.tally().votes =~= m.votes.update(i as int, (user@, score as int)));
                        assert(self.tally() =~= apply_cast(m, user@, score as int));
                    }
                }
                return ;
            }
            i = i + 1;
        }
        proof {
            lemma_sum_push(m.votes, (user@, score as int));
        }
        self.upvote_count = self.upvote_count + (score as i64);
        self.vote_count = self.vote_count + 1;
        self.votes.push(Vote { user, score });
        proof {
            assert(self.tally().votes =~= m.votes.push((user@, score as int)));
            assert(self.tally() =~= apply_cast(m, user@, score as int));
        }
    }

    /// Delete `user`'s vote, if any, and reconcile the counters in the same
    /// step, as [`apply_remove`] describes. Removing a vote that was never
    /// cast changes nothing and is not an error.
    pub fn remove_vote(&mut self, user: &String)
        requires
            old(self).wf(),
        ensures
            final(self).wf(),
            final(self).tally() == apply_remove(old(self).tally(), user@),
            final(self).item == old(self).item,
            final(self).property == old(self).property,
            final(self).note == old(self).note,
            final(self).status == old(self).status,
            final(self).source == old(self).source,
    {
        let ghost m = self.tally();
        proof {
            lemma_vote_idx(m.votes, user@);
            lemma_remove_preserves_wf(m, user@);
            lemma_sum_bounded(m.votes);
        }
        let n = self.votes.len();
        let mut i: usize = 0;
        while i < n
            invariant
                *self == *old(self),
                self.wf(),
                n == self.votes.len(),
                i <= n,
                m == self.tally(),
                forall|j: int| 0 <= j < i ==> m.votes[j].0 != user@,
            decreases n - i,
        {
            proof {
                assert(m.votes[i as int] == (self.votes@[i as int].user@, self.votes@[
                    i as int
                ].score as int));
            }
            if self.votes[i].user == *user {
                proof {
                    lemma_vote_idx_is(m.votes, user@, i as int);
                    lemma_sum_remove(m.votes, i as int);
                    lemma_sum_bounded(m.votes);
                    lemma_remove_preserves_wf(m, user@);
                    let rest = m.votes.remove(i as int);
                    assert forall|a: int| 0 <= a < rest.len() implies (rest[a].1 == 1 || rest[a].1
                        == -1) by {
                        let a0: int = if a < i {
                            a
                        } else {
                            a + 1
                        };
                        assert(rest[a] == m.votes[a0]);
                    }
                    lemma_sum_bounded(rest);
                }
                let prior = self.votes[i].score;
                self.upvote_count = self.upvote_count - (prior as i64);
                if self.vote_count > 0 {
                    self.vote_count = self.vote_count - 1;
                }
                self.votes.remove(i);
                proof {
                    assert(self.tally().votes =~= m.votes.remove(i as int));
                    assert(self.tally() =~= apply_remove(m, user@));
                }
                return ;
            }
            i = i + 1;
        }
    }
}

} // verus!
