//! What holds of the allow-list over any run of votes.

use crate::ledger::{lemma_voters_for_contains, lemma_voters_for_without, voters_for, Vote};
use crate::pallet::{lemma_vote_preserves_wf, Error, PalletView};
use crate::AccountId;
use vstd::prelude::*;

verus! {

/// Only a member's vote is ever accepted, and a member's vote is accepted
/// for every account that is no member and for which it has not voted yet.
pub proof fn lemma_who_may_vote(s: PalletView, voter: AccountId, candidate: AccountId)
    ensures
        !s.is_member(voter) ==> s.vote_result(voter, candidate) == Err::<(), Error>(
            Error::NotAllowedToVote,
        ),
        s.vote_result(voter, candidate) is Ok <==> s.is_member(voter) && !s.is_member(candidate)
            && !s.has_voted(candidate, voter),
{
}

/// A vote that is turned down changes nothing.
pub proof fn lemma_rejected_vote_changes_nothing(
    s: PalletView,
    voter: AccountId,
    candidate: AccountId,
)
    requires
        s.vote_result(voter, candidate) is Err,
    ensures
        s.after_vote(voter, candidate) == s,
{
}

/// A vote that is on record cannot be cast again: the attempt is turned down
/// as a duplicate and changes nothing.
pub proof fn lemma_recorded_vote_is_rejected(s: PalletView, voter: AccountId, candidate: AccountId)
    requires
        s.wf(),
        s.has_voted(candidate, voter),
    ensures
        s.vote_result(voter, candidate) == Err::<(), Error>(Error::DuplicateVote),
        s.after_vote(voter, candidate) == s,
{
    let cast = Vote { candidate, voter };
    let i = choose|i: int| 0 <= i < s.votes.len() && s.votes[i] == cast;
    assert(s.members.contains(s.votes[i].voter));
    assert(!s.members.contains(s.votes[i].candidate));
}

/// Casting an accepted vote a second time is turned down as a duplicate,
/// unless the first one has let the candidate in, and changes nothing.
pub proof fn lemma_vote_counts_once(s: PalletView, voter: AccountId, candidate: AccountId)
    requires
        s.wf(),
        s.vote_result(voter, candidate) is Ok,
    ensures
        s.after_vote(voter, candidate).vote_result(voter, candidate) == Err::<(), Error>(
            if s.promotes(candidate) {
                Error::AlreadyAllowed
            } else {
                Error::DuplicateVote
            },
        ),
        s.after_vote(voter, candidate).after_vote(voter, candidate) == s.after_vote(
            voter,
            candidate,
        ),
{
    let next = s.after_vote(voter, candidate);
    let m = choose|m: int| 0 <= m < s.members.len() && s.members[m] == voter;
    if s.promotes(candidate) {
        assert(next.members[m] == voter);
        assert(next.members[s.members.len() as int] == candidate);
    } else {
        assert(next.votes[s.votes.len() as int] == Vote { candidate, voter });
    }
}

/// No vote is on record for a member.
pub proof fn lemma_member_has_no_voters(s: PalletView, account: AccountId)
    requires
        s.wf(),
        s.is_member(account),
    ensures
        voters_for(s.votes, account) == Seq::<AccountId>::empty(),
{
    let voters = voters_for(s.votes, account);
    if voters.len() > 0 {
        let first = voters[0];
        assert(voters.contains(first));
        lemma_voters_for_contains(s.votes, account, first);
        let cast = Vote { candidate: account, voter: first };
        let i = choose|i: int| 0 <= i < s.votes.len() && s.votes[i] == cast;
        assert(!s.members.contains(s.votes[i].candidate));
    }
    assert(voters =~= Seq::<AccountId>::empty());
}

/// The vote that reaches the threshold makes the candidate a member and
/// leaves no vote for it on record.
pub proof fn lemma_promotion_settles_candidate(
    s: PalletView,
    voter: AccountId,
    candidate: AccountId,
)
    requires
        s.vote_result(voter, candidate) is Ok,
        s.promotes(candidate),
    ensures
        s.after_vote(voter, candidate).is_member(candidate),
        voters_for(s.after_vote(voter, candidate).votes, candidate) == Seq::<AccountId>::empty(),
{
    let next = s.after_vote(voter, candidate);
    assert(next.members[s.members.len() as int] == candidate);
    lemma_voters_for_without(s.votes, candidate, candidate);
}

/// A vote takes no member out.
pub proof fn lemma_vote_keeps_members(
    s: PalletView,
    voter: AccountId,
    candidate: AccountId,
    account: AccountId,
)
    requires
        s.is_member(account),
    ensures
        s.after_vote(voter, candidate).is_member(account),
{
    let next = s.after_vote(voter, candidate);
    let m = choose|m: int| 0 <= m < s.members.len() && s.members[m] == account;
    assert(next.members[m] == account);
}

/// Whatever votes follow, the state stays well-formed: no member and no vote
/// is held twice, every vote on record was cast by a member, and none is for
/// a member.
pub proof fn lemma_votes_preserve_wf(s: PalletView, calls: Seq<(AccountId, AccountId)>)
    requires
        s.wf(),
    ensures
        s.after_votes(calls).wf(),
    decreases calls.len(),
{
    if calls.len() > 0 {
        lemma_votes_preserve_wf(s, calls.drop_last());
        lemma_vote_preserves_wf(s.after_votes(calls.drop_last()), calls.last().0, calls.last().1);
    }
}

/// Once a member, always a member, and never again with a vote on record:
/// whatever votes follow.
pub proof fn lemma_membership_is_final(
    s: PalletView,
    calls: Seq<(AccountId, AccountId)>,
    account: AccountId,
)
    requires
        s.wf(),
        s.is_member(account),
    ensures
        s.after_votes(calls).is_member(account),
        voters_for(s.after_votes(calls).votes, account) == Seq::<AccountId>::empty(),
    decreases calls.len(),
{
    if calls.len() > 0 {
        lemma_membership_is_final(s, calls.drop_last(), account);
        lemma_vote_keeps_members(
            s.after_votes(calls.drop_last()),
            calls.last().0,
            calls.last().1,
            account,
        );
    }
    lemma_votes_preserve_wf(s, calls);
    lemma_member_has_no_voters(s.after_votes(calls), account);
}

} // verus!
