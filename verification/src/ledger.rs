//! The record of who has voted for which candidate.

use crate::AccountId;
use vstd::prelude::*;

verus! {

/// One recorded vote: `voter` wants `candidate` let in.
#[derive(Clone, Copy, Debug, PartialEq, Eq, Structural)]
pub struct Vote {
    pub candidate: AccountId,
    pub voter: AccountId,
}

/// The voters recorded for `candidate`, in the order in which they voted.
pub open spec fn voters_for(votes: Seq<Vote>, candidate: AccountId) -> Seq<AccountId>
    decreases votes.len(),
{
    if votes.len() == 0 {
        Seq::empty()
    } else if votes.last().candidate == candidate {
        voters_for(votes.drop_last(), candidate).push(votes.last().voter)
    } else {
        voters_for(votes.drop_last(), candidate)
    }
}

/// The votes that remain once every vote for `candidate` is struck out; the
/// others keep their order.
pub open spec fn without_candidate(votes: Seq<Vote>, candidate: AccountId) -> Seq<Vote>
    decreases votes.len(),
{
    if votes.len() == 0 {
        Seq::empty()
    } else if votes.last().candidate == candidate {
        without_candidate(votes.drop_last(), candidate)
    } else {
        without_candidate(votes.drop_last(), candidate).push(votes.last())
    }
}

/// No pair of candidate and voter is recorded twice.
pub open spec fn distinct_votes(votes: Seq<Vote>) -> bool {
    votes.no_duplicates()
}

/// What one more vote adds to the voters of each candidate.
pub proof fn lemma_voters_for_push(votes: Seq<Vote>, vote: Vote, candidate: AccountId)
    ensures
        voters_for(votes.push(vote), candidate) == if vote.candidate == candidate {
            voters_for(votes, candidate).push(vote.voter)
        } else {
            voters_for(votes, candidate)
        },
        without_candidate(votes.push(vote), candidate) == if vote.candidate == candidate {
            without_candidate(votes, candidate)
        } else {
            without_candidate(votes, candidate).push(vote)
        },
{
    assert(votes.push(vote).drop_last() =~= votes);
}

/// A voter is among the voters of a candidate exactly when that pair is
/// recorded.
pub proof fn lemma_voters_for_contains(votes: Seq<Vote>, candidate: AccountId, voter: AccountId)
    ensures
        voters_for(votes, candidate).contains(voter) <==> votes.contains(
            Vote { candidate, voter },
        ),
    decreases votes.len(),
{
    let target = Vote { candidate, voter };
    if votes.len() == 0 {
    } else {
        let rest = votes.drop_last();
        let last = votes.last();
        lemma_voters_for_contains(rest, candidate, voter);
        if votes.contains(target) {
            let i = choose|i: int| 0 <= i < votes.len() && votes[i] == target;
            if i < rest.len() {
                assert(rest[i] == target);
                let inner = voters_for(rest, candidate);
                let j = choose|j: int| 0 <= j < inner.len() && inner[j] == voter;
                assert(voters_for(votes, candidate)[j] == voter);
            } else {
                let all = voters_for(votes, candidate);
                assert(all[all.len() - 1] == voter);
            }
        }
        if voters_for(votes, candidate).contains(voter) {
            let all = voters_for(votes, candidate);
            let j = choose|j: int| 0 <= j < all.len() && all[j] == voter;
            if last.candidate == candidate && j == all.len() - 1 {
                assert(votes[votes.len() - 1] == target);
            } else {
                assert(voters_for(rest, candidate)[j] == voter);
                let i = choose|i: int| 0 <= i < rest.len() && rest[i] == target;
                assert(votes[i] == target);
            }
        }
    }
}

/// Where no pair is recorded twice, no voter occurs twice among the voters
/// of one candidate.
pub proof fn lemma_voters_for_distinct(votes: Seq<Vote>, candidate: AccountId)
    requires
        distinct_votes(votes),
    ensures
        voters_for(votes, candidate).no_duplicates(),
    decreases votes.len(),
{
    if votes.len() > 0 {
        let rest = votes.drop_last();
        let last = votes.last();
        lemma_voters_for_distinct(rest, candidate);
        if last.candidate == candidate {
            lemma_voters_for_contains(rest, candidate, last.voter);
            if rest.contains(last) {
                let i = choose|i: int| 0 <= i < rest.len() && rest[i] == last;
                assert(votes[i] == votes[votes.len() - 1]);
            }
            let inner = voters_for(rest, candidate);
            assert forall|i: int, j: int|
                0 <= i < inner.len() + 1 && 0 <= j < inner.len() + 1 && i != j implies inner.push(
                last.voter,
            )[i] != inner.push(last.voter)[j] by {
                if i < inner.len() && j < inner.len() {
                } else if i < inner.len() {
                    assert(inner.contains(inner[i]));
                } else {
                    assert(inner.contains(inner[j]));
                }
            }
        }
    }
}

/// What is left after striking out a candidate: exactly the votes for other
/// candidates.
pub proof fn lemma_without_candidate_contains(votes: Seq<Vote>, candidate: AccountId, vote: Vote)
    ensures
        without_candidate(votes, candidate).contains(vote) <==> (votes.contains(vote)
            && vote.candidate != candidate),
    decreases votes.len(),
{
    if votes.len() > 0 {
        let rest = votes.drop_last();
        let last = votes.last();
        lemma_without_candidate_contains(rest, candidate, vote);
        let kept = without_candidate(rest, candidate);
        let all = without_candidate(votes, candidate);
        if votes.contains(vote) && vote.candidate != candidate {
            let i = choose|i: int| 0 <= i < votes.len() && votes[i] == vote;
            if i < rest.len() {
                assert(rest[i] == vote);
                let j = choose|j: int| 0 <= j < kept.len() && kept[j] == vote;
                assert(all[j] == vote);
            } else {
                assert(all[all.len() - 1] == vote);
            }
        }
        if all.contains(vote) {
            let j = choose|j: int| 0 <= j < all.len() && all[j] == vote;
            if last.candidate != candidate && j == all.len() - 1 {
                assert(votes[votes.len() - 1] == vote);
            } else {
                assert(kept[j] == vote);
                let i = choose|i: int| 0 <= i < rest.len() && rest[i] == vote;
                assert(votes[i] == vote);
            }
        }
    }
}

/// Striking out a candidate keeps the record free of repeated pairs.
pub proof fn lemma_without_candidate_distinct(votes: Seq<Vote>, candidate: AccountId)
    requires
        distinct_votes(votes),
    ensures
        distinct_votes(without_candidate(votes, candidate)),
    decreases votes.len(),
{
    if votes.len() > 0 {
        let rest = votes.drop_last();
        let last = votes.last();
        lemma_without_candidate_distinct(rest, candidate);
        if last.candidate != candidate {
            lemma_without_candidate_contains(rest, candidate, last);
            if rest.contains(last) {
                let i = choose|i: int| 0 <= i < rest.len() && rest[i] == last;
                assert(votes[i] == votes[votes.len() - 1]);
            }
            let kept = without_candidate(rest, candidate);
            assert forall|i: int, j: int|
                0 <= i < kept.len() + 1 && 0 <= j < kept.len() + 1 && i != j implies kept.push(
                last,
            )[i] != kept.push(last)[j] by {
                if i < kept.len() && j < kept.len() {
                } else if i < kept.len() {
                    assert(kept.contains(kept[i]));
                } else {
                    assert(kept.contains(kept[j]));
                }
            }
        }
    }
}

/// Striking out one candidate empties its voters and leaves those of every
/// other candidate as they were.
pub proof fn lemma_voters_for_without(votes: Seq<Vote>, struck: AccountId, candidate: AccountId)
    ensures
        voters_for(without_candidate(votes, struck), candidate) == if candidate == struck {
            Seq::<AccountId>::empty()
        } else {
            voters_for(votes, candidate)
        },
    decreases votes.len(),
{
    if votes.len() > 0 {
        let rest = votes.drop_last();
        let last = votes.last();
        lemma_voters_for_without(rest, struck, candidate);
        if last.candidate != struck {
            lemma_voters_for_push(without_candidate(rest, struck), last, candidate);
        }
    }
}

/// The votes cast and not yet settled, in the order in which they came.
#[derive(Debug)]
pub struct VoteLedger {
    votes: Vec<Vote>,
}

impl VoteLedger {
    /// The recorded votes, oldest first.
    pub closed spec fn view(&self) -> Seq<Vote> {
        self.votes@
    }

    pub open spec fn wf(&self) -> bool {
        distinct_votes(self@)
    }

    /// A ledger without votes.
    pub fn new() -> (ledger: VoteLedger)
        ensures
            ledger@ == Seq::<Vote>::empty(),
            ledger.wf(),
    {
        VoteLedger { votes: Vec::new() }
    }

    /// Whether `voter` has a vote for `candidate` on record.
    pub fn has_voted(&self, candidate: AccountId, voter: AccountId) -> (found: bool)
        ensures
            found == self@.contains(Vote { candidate, voter }),
    {
        let mut i: usize = 0;
        while i < self.votes.len()
            invariant
                i <= self.votes.len(),
                forall|k: int| 0 <= k < i ==> self.votes@[k] != (Vote { candidate, voter }),
            decreases self.votes.len() - i,
        {
            if self.votes[i].candidate == candidate && self.votes[i].voter == voter {
                return true;
            }
            i += 1;
        }
        false
    }

    /// Records the vote of `voter` for `candidate` unless it is on record
    /// already, and says whether this call recorded it.
    pub fn record_vote(&mut self, candidate: AccountId, voter: AccountId) -> (recorded: bool)
        requires
            old(self).wf(),
        ensures
            final(self).wf(),
            recorded == !old(self)@.contains(Vote { candidate, voter }),
            recorded ==> final(self)@ == old(self)@.push(Vote { candidate, voter }),
            !recorded ==> *final(self) == *old(self),
    {
        if self.has_voted(candidate, voter) {
            false
        } else {
            self.votes.push(Vote { candidate, voter });
            true
        }
    }

    /// The number of voters on record for `candidate`.
    pub fn count_voters_for(&self, candidate: AccountId) -> (n: usize)
        ensures
            n == voters_for(self@, candidate).len(),
    {
        let mut n: usize = 0;
        let mut i: usize = 0;
        while i < self.votes.len()
            invariant
                i <= self.votes.len(),
                n <= i,
                n == voters_for(self.votes@.take(i as int), candidate).len(),
            decreases self.votes.len() - i,
        {
            proof {
                assert(self.votes@.take(i + 1) =~= self.votes@.take(i as int).push(
                    self.votes@[i as int],
                ));
                lemma_voters_for_push(self.votes@.take(i as int), self.votes@[i as int], candidate);
            }
            if self.votes[i].candidate == candidate {
                n += 1;
            }
            i += 1;
        }
        assert(self.votes@.take(i as int) =~= self.votes@);
        n
    }

    /// The votes on record, oldest first.
    pub fn list(&self) -> (votes: Vec<Vote>)
        ensures
            votes@ == self@,
    {
        let mut votes: Vec<Vote> = Vec::new();
        let mut i: usize = 0;
        while i < self.votes.len()
            invariant
                i <= self.votes.len(),
                votes@ == self.votes@.take(i as int),
            decreases self.votes.len() - i,
        {
            votes.push(self.votes[i]);
            assert(self.votes@.take(i + 1) =~= self.votes@.take(i as int).push(
                self.votes@[i as int],
            ));
            i += 1;
        }
        assert(self.votes@.take(i as int) =~= self.votes@);
        votes
    }

    /// Takes every vote for `candidate` off the record and hands back the
    /// voters, oldest vote first.
    pub fn drain_voters_for(&mut self, candidate: AccountId) -> (voters: Vec<AccountId>)
        requires
            old(self).wf(),
        ensures
            final(self).wf(),
            voters@ == voters_for(old(self)@, candidate),
            final(self)@ == without_candidate(old(self)@, candidate),
    {
        let mut voters: Vec<AccountId> = Vec::new();
        let mut kept: Vec<Vote> = Vec::new();
        let mut i: usize = 0;
        while i < self.votes.len()
            invariant
                i <= self.votes.len(),
                voters@ == voters_for(self.votes@.take(i as int), candidate),
                kept@ == without_candidate(self.votes@.take(i as int), candidate),
            decreases self.votes.len() - i,
        {
            proof {
                assert(self.votes@.take(i + 1) =~= self.votes@.take(i as int).push(
                    self.votes@[i as int],
                ));
                lemma_voters_for_push(self.votes@.take(i as int), self.votes@[i as int], candidate);
            }
            let vote = self.votes[i];
            if vote.candidate == candidate {
                voters.push(vote.voter);
            } else {
                kept.push(vote);
            }
            i += 1;
        }
        proof {
            assert(self.votes@.take(i as int) =~= self.votes@);
            lemma_without_candidate_distinct(self.votes@, candidate);
        }
        self.votes = kept;
        voters
    }
}

} // verus!
