//! The allow-list with its voting process: who may vote, when a candidate is
//! let in, and what is announced.

use crate::ledger::{
    distinct_votes, lemma_voters_for_contains, lemma_voters_for_distinct,
    lemma_without_candidate_contains, lemma_without_candidate_distinct, voters_for,
    without_candidate, Vote, VoteLedger,
};
use crate::membership::MembershipStore;
use crate::threshold::{quorum_met, quorum_reached, Threshold};
use crate::AccountId;
use vstd::prelude::*;

verus! {

/// What a vote announces.
#[derive(Clone, Debug, PartialEq, Eq)]
pub enum Event {
    /// A candidate has been let in; `voted_for` names those whose votes did
    /// it, earlier votes first and the deciding vote last.
    AccountAllowed { account: AccountId, voted_for: Vec<AccountId> },
    /// `referrer` has voted for `referee`.
    AccountVoted { referrer: AccountId, referee: AccountId },
}

/// An event as contracts speak of it.
pub enum EventView {
    AccountAllowed { account: AccountId, voted_for: Seq<AccountId> },
    AccountVoted { referrer: AccountId, referee: AccountId },
}

impl View for Event {
    type V = EventView;

    open spec fn view(&self) -> EventView {
        match self {
            Event::AccountAllowed { account, voted_for } => EventView::AccountAllowed {
                account: *account,
                voted_for: voted_for@,
            },
            Event::AccountVoted { referrer, referee } => EventView::AccountVoted {
                referrer: *referrer,
                referee: *referee,
            },
        }
    }
}

/// Why a vote was turned down.
#[derive(Clone, Copy, Debug, PartialEq, Eq, Structural)]
pub enum Error {
    /// The candidate is a member already.
    AlreadyAllowed,
    /// The voter has voted for this candidate before.
    DuplicateVote,
    /// The voter is no member.
    NotAllowedToVote,
}

/// The events of a log as contracts speak of them.
pub open spec fn event_views(events: Seq<Event>) -> Seq<EventView> {
    events.map_values(|e: Event| e@)
}

/// The accounts of a genesis list, each once, in the order of their first
/// occurrence.
pub open spec fn genesis_members(accounts: Seq<(AccountId, ())>) -> Seq<AccountId>
    decreases accounts.len(),
{
    if accounts.len() == 0 {
        Seq::empty()
    } else {
        let earlier = genesis_members(accounts.drop_last());
        if earlier.contains(accounts.last().0) {
            earlier
        } else {
            earlier.push(accounts.last().0)
        }
    }
}

/// The state of the allow-list as contracts speak of it.
pub struct PalletView {
    /// The members in the order of their admission.
    pub members: Seq<AccountId>,
    /// The votes on record, oldest first.
    pub votes: Seq<Vote>,
    /// The threshold in percent.
    pub threshold: int,
    /// What has been announced and not yet collected, oldest first.
    pub events: Seq<EventView>,
}

impl PalletView {
    /// What always holds of the state: no member and no vote is held twice,
    /// every vote on record was cast by a member, and none is for a member.
    pub open spec fn wf(self) -> bool {
        &&& self.members.no_duplicates()
        &&& distinct_votes(self.votes)
        &&& Threshold::valid_percent(self.threshold)
        &&& forall|i: int|
            0 <= i < self.votes.len() ==> self.members.contains(#[trigger] self.votes[i].voter)
        &&& forall|i: int|
            0 <= i < self.votes.len() ==> !self.members.contains(
                #[trigger] self.votes[i].candidate,
            )
    }

    pub open spec fn is_member(self, account: AccountId) -> bool {
        self.members.contains(account)
    }

    pub open spec fn has_voted(self, candidate: AccountId, voter: AccountId) -> bool {
        self.votes.contains(Vote { candidate, voter })
    }

    /// How a vote of `voter` for `candidate` is answered.
    pub open spec fn vote_result(self, voter: AccountId, candidate: AccountId) -> Result<
        (),
        Error,
    > {
        if !self.is_member(voter) {
            Err(Error::NotAllowedToVote)
        } else if self.is_member(candidate) {
            Err(Error::AlreadyAllowed)
        } else if self.has_voted(candidate, voter) {
            Err(Error::DuplicateVote)
        } else {
            Ok(())
        }
    }

    /// Whether one more vote for `candidate` reaches the threshold: the
    /// voters on record and the one now voting, against all current members.
    pub open spec fn promotes(self, candidate: AccountId) -> bool {
        quorum_met(
            voters_for(self.votes, candidate).len() as int + 1,
            self.members.len() as int,
            self.threshold,
        )
    }

    /// The state after an accepted vote that lets `candidate` in.
    pub open spec fn after_promotion(self, voter: AccountId, candidate: AccountId) -> PalletView {
        PalletView {
            members: self.members.push(candidate),
            votes: without_candidate(self.votes, candidate),
            threshold: self.threshold,
            events: self.events.push(
                EventView::AccountVoted { referrer: voter, referee: candidate },
            ).push(
                EventView::AccountAllowed {
                    account: candidate,
                    voted_for: voters_for(self.votes, candidate).push(voter),
                },
            ),
        }
    }

    /// The state after an accepted vote that does not yet let `candidate` in.
    pub open spec fn after_record(self, voter: AccountId, candidate: AccountId) -> PalletView {
        PalletView {
            members: self.members,
            votes: self.votes.push(Vote { candidate, voter }),
            threshold: self.threshold,
            events: self.events.push(
                EventView::AccountVoted { referrer: voter, referee: candidate },
            ),
        }
    }

    /// The state after a vote of `voter` for `candidate`, accepted or not.
    pub open spec fn after_vote(self, voter: AccountId, candidate: AccountId) -> PalletView {
        if self.vote_result(voter, candidate) is Err {
            self
        } else if self.promotes(candidate) {
            self.after_promotion(voter, candidate)
        } else {
            self.after_record(voter, candidate)
        }
    }

    /// The state after a run of votes, each given as voter and candidate.
    pub open spec fn after_votes(self, calls: Seq<(AccountId, AccountId)>) -> PalletView
        decreases calls.len(),
    {
        if calls.len() == 0 {
            self
        } else {
            self.after_votes(calls.drop_last()).after_vote(calls.last().0, calls.last().1)
        }
    }
}

/// The voters on record for a candidate are fewer than the members as long
/// as some member has not voted for it.
pub proof fn lemma_tally_below_membership(s: PalletView, voter: AccountId, candidate: AccountId)
    requires
        s.wf(),
        s.is_member(voter),
        !s.has_voted(candidate, voter),
    ensures
        voters_for(s.votes, candidate).len() < s.members.len(),
{
    let voters = voters_for(s.votes, candidate);
    lemma_voters_for_distinct(s.votes, candidate);
    voters.unique_seq_to_set();
    s.members.unique_seq_to_set();
    vstd::seq_lib::seq_to_set_is_finite(s.members);
    let others = s.members.to_set().remove(voter);
    assert forall|a: AccountId| voters.to_set().contains(a) implies others.contains(a) by {
        assert(voters.contains(a));
        lemma_voters_for_contains(s.votes, candidate, a);
        lemma_voters_for_contains(s.votes, candidate, voter);
        let target = Vote { candidate, voter: a };
        let i = choose|i: int| 0 <= i < s.votes.len() && s.votes[i] == target;
        assert(s.members.contains(s.votes[i].voter));
    }
    vstd::set::axiom_set_remove_len(s.members.to_set(), voter);
    vstd::set_lib::lemma_len_subset(voters.to_set(), others);
}

/// A vote, accepted or not, leaves the state well-formed.
pub proof fn lemma_vote_preserves_wf(s: PalletView, voter: AccountId, candidate: AccountId)
    requires
        s.wf(),
    ensures
        s.after_vote(voter, candidate).wf(),
{
    let next = s.after_vote(voter, candidate);
    if s.vote_result(voter, candidate) is Err {
    } else if s.promotes(candidate) {
        lemma_without_candidate_distinct(s.votes, candidate);
        assert forall|i: int| 0 <= i < next.votes.len() implies next.members.contains(
            #[trigger] next.votes[i].voter,
        ) by {
            let vote = next.votes[i];
            assert(next.votes.contains(vote));
            lemma_without_candidate_contains(s.votes, candidate, vote);
            let k = choose|k: int| 0 <= k < s.votes.len() && s.votes[k] == vote;
            assert(s.members.contains(s.votes[k].voter));
            let m = choose|m: int| 0 <= m < s.members.len() && s.members[m] == vote.voter;
            assert(next.members[m] == vote.voter);
        }
        assert forall|i: int| 0 <= i < next.votes.len() implies !next.members.contains(
            #[trigger] next.votes[i].candidate,
        ) by {
            let vote = next.votes[i];
            assert(next.votes.contains(vote));
            lemma_without_candidate_contains(s.votes, candidate, vote);
            let k = choose|k: int| 0 <= k < s.votes.len() && s.votes[k] == vote;
            assert(!s.members.contains(s.votes[k].candidate));
            if next.members.contains(vote.candidate) {
                let n = choose|n: int|
                    0 <= n < next.members.len() && next.members[n] == vote.candidate;
                if n < s.members.len() {
                    assert(s.members[n] == vote.candidate);
                }
            }
        }
        assert forall|i: int, j: int|
            0 <= i < next.members.len() && 0 <= j < next.members.len() && i
                != j implies next.members[i] != next.members[j] by {
            if i < s.members.len() && j < s.members.len() {
            } else if i < s.members.len() {
                assert(s.members.contains(s.members[i]));
            } else {
                assert(s.members.contains(s.members[j]));
            }
        }
    } else {
        assert forall|i: int, j: int|
            0 <= i < next.votes.len() && 0 <= j < next.votes.len() && i != j implies next.votes[i]
            != next.votes[j] by {
            if i < s.votes.len() && j < s.votes.len() {
            } else if i < s.votes.len() {
                assert(s.votes.contains(s.votes[i]));
            } else {
                assert(s.votes.contains(s.votes[j]));
            }
        }
        assert forall|i: int| 0 <= i < next.votes.len() implies next.members.contains(
            #[trigger] next.votes[i].voter,
        ) by {
            if i < s.votes.len() {
                assert(s.members.contains(s.votes[i].voter));
            }
        }
        assert forall|i: int| 0 <= i < next.votes.len() implies !next.members.contains(
            #[trigger] next.votes[i].candidate,
        ) by {
            if i < s.votes.len() {
                assert(!s.members.contains(s.votes[i].candidate));
            }
        }
    }
}

/// The accounts that are members before the first vote.
#[derive(Clone, Debug)]
pub struct GenesisConfig {
    pub allowed_accounts: Vec<(AccountId, ())>,
}

impl Default for GenesisConfig {
    /// A genesis without members.
    fn default() -> (config: GenesisConfig)
        ensures
            config.allowed_accounts@ == Seq::<(AccountId, ())>::empty(),
    {
        GenesisConfig { allowed_accounts: Vec::new() }
    }
}

impl GenesisConfig {
    /// The allow-list as it stands before the first vote: the listed
    /// accounts are its members, nothing is on record, nothing announced.
    pub fn build(&self, threshold: Threshold) -> (pallet: Pallet)
        requires
            threshold.wf(),
        ensures
            pallet.wf(),
            pallet@ == (PalletView {
                members: genesis_members(self.allowed_accounts@),
                votes: Seq::empty(),
                threshold: threshold@,
                events: Seq::empty(),
            }),
    {
        let mut pallet = Pallet::new(threshold);
        pallet.initialize_allowed_accounts(self.allowed_accounts.as_slice());
        pallet
    }
}

/// The allow-list, the votes on record, the threshold, and what has been
/// announced since the events were last collected.
#[derive(Debug)]
pub struct Pallet {
    members: MembershipStore,
    votes: VoteLedger,
    threshold: Threshold,
    events: Vec<Event>,
}

impl Pallet {
    /// The state as contracts speak of it.
    pub closed spec fn view(&self) -> PalletView {
        PalletView {
            members: self.members@,
            votes: self.votes@,
            threshold: self.threshold@,
            events: event_views(self.events@),
        }
    }

    pub open spec fn wf(&self) -> bool {
        self@.wf()
    }

    /// An allow-list without members, votes or events.
    pub fn new(threshold: Threshold) -> (pallet: Pallet)
        requires
            threshold.wf(),
        ensures
            pallet.wf(),
            pallet@ == (PalletView {
                members: Seq::empty(),
                votes: Seq::empty(),
                threshold: threshold@,
                events: Seq::empty(),
            }),
    {
        let pallet = Pallet {
            members: MembershipStore::new(),
            votes: VoteLedger::new(),
            threshold,
            events: Vec::new(),
        };
        assert(event_views(pallet.events@) =~= Seq::<EventView>::empty());
        pallet
    }

    /// The allow-list with the given members and votes on record and nothing
    /// announced, where these make a well-formed state; `None` where a
    /// member or a vote is listed twice, a vote was cast by a non-member, or
    /// a vote is for a member.
    pub fn restore(members: Vec<AccountId>, votes: Vec<Vote>, threshold: Threshold) -> (restored:
        Option<Pallet>)
        requires
            threshold.wf(),
        ensures
            restored is Some <==> (PalletView {
                members: members@,
                votes: votes@,
                threshold: threshold@,
                events: Seq::empty(),
            }).wf(),
            restored is Some ==> restored->Some_0.wf() && restored->Some_0@ == (PalletView {
                members: members@,
                votes: votes@,
                threshold: threshold@,
                events: Seq::empty(),
            }),
    {
        let mut store = MembershipStore::new();
        let mut i: usize = 0;
        assert(store@ =~= members@.take(0));
        while i < members.len()
            invariant
                i <= members.len(),
                store.wf(),
                store@ == members@.take(i as int),
            decreases members.len() - i,
        {
            let ghost seen = store@;
            if !store.add(members[i]) {
                proof {
                    let j = choose|j: int| 0 <= j < seen.len() && seen[j] == members@[i as int];
                    assert(members@[j] == members@[i as int]);
                }
                return None;
            }
            assert(members@.take(i + 1) =~= members@.take(i as int).push(members@[i as int]));
            i += 1;
        }
        assert(members@.take(i as int) =~= members@);
        let mut ledger = VoteLedger::new();
        let mut k: usize = 0;
        assert(ledger@ =~= votes@.take(0));
        while k < votes.len()
            invariant
                k <= votes.len(),
                store@ == members@,
                members@.no_duplicates(),
                ledger.wf(),
                ledger@ == votes@.take(k as int),
                forall|j: int| 0 <= j < k ==> members@.contains(#[trigger] votes@[j].voter),
                forall|j: int| 0 <= j < k ==> !members@.contains(#[trigger] votes@[j].candidate),
            decreases votes.len() - k,
        {
            let vote = votes[k];
            if !store.is_member(vote.voter) || store.is_member(vote.candidate) {
                return None;
            }
            let ghost seen = ledger@;
            if !ledger.record_vote(vote.candidate, vote.voter) {
                proof {
                    let j = choose|j: int| 0 <= j < seen.len() && seen[j] == vote;
                    assert(votes@[j] == votes@[k as int]);
                }
                return None;
            }
            assert(votes@.take(k + 1) =~= votes@.take(k as int).push(votes@[k as int]));
            k += 1;
        }
        assert(votes@.take(k as int) =~= votes@);
        let pallet = Pallet { members: store, votes: ledger, threshold, events: Vec::new() };
        assert(event_views(pallet.events@) =~= Seq::<EventView>::empty());
        Some(pallet)
    }

    /// Casts the vote of `origin` for `new_account`.
    ///
    /// The vote is turned down, and nothing changes, where `origin` is no
    /// member, where `new_account` is a member already, or where `origin` has
    /// voted for it before, in this order. Otherwise it is announced, and
    /// either put on record or, where it brings the voters for `new_account`
    /// to the threshold share of the current members, `new_account` is let
    /// in, the votes for it leave the record, and its admission is announced
    /// with its voters in the order of their votes.
    pub fn vote_for_account(&mut self, origin: AccountId, new_account: AccountId) -> (result:
        Result<(), Error>)
        requires
            old(self).wf(),
        ensures
            final(self).wf(),
            result == old(self)@.vote_result(origin, new_account),
            final(self)@ == old(self)@.after_vote(origin, new_account),
            result is Err ==> *final(self) == *old(self),
    {
        if !self.members.is_member(origin) {
            return Err(Error::NotAllowedToVote);
        }
        if self.members.is_member(new_account) {
            return Err(Error::AlreadyAllowed);
        }
        if self.votes.has_voted(new_account, origin) {
            return Err(Error::DuplicateVote);
        }
        proof {
            lemma_tally_below_membership(self@, origin, new_account);
            lemma_vote_preserves_wf(self@, origin, new_account);
        }
        let votes_required: u64 = self.members.size() as u64;
        let votes_for: u64 = self.votes.count_voters_for(new_account) as u64 + 1;
        if quorum_reached(votes_for, votes_required, self.threshold) {
            self.members.add(new_account);
            let mut voted_for = self.votes.drain_voters_for(new_account);
            voted_for.push(origin);
            self.deposit_event(Event::AccountVoted { referrer: origin, referee: new_account });
            self.deposit_event(Event::AccountAllowed { account: new_account, voted_for });
        } else {
            self.votes.record_vote(new_account, origin);
            self.deposit_event(Event::AccountVoted { referrer: origin, referee: new_account });
        }
        Ok(())
    }

    /// Appends `event` to what has been announced.
    fn deposit_event(&mut self, event: Event)
        ensures
            final(self).members == old(self).members,
            final(self).votes == old(self).votes,
            final(self).threshold == old(self).threshold,
            event_views(final(self).events@) == event_views(old(self).events@).push(event@),
    {
        self.events.push(event);
        assert(event_views(self.events@) =~= event_views(old(self).events@).push(event@));
    }

    /// `Some` where `account` is a member.
    pub fn allowed_accounts(&self, account: AccountId) -> (entry: Option<()>)
        ensures
            entry is Some <==> self@.is_member(account),
    {
        if self.members.is_member(account) {
            Some(())
        } else {
            None
        }
    }

    /// `Some` where `voter` has a vote for `candidate` on record.
    pub fn votes(&self, candidate: AccountId, voter: AccountId) -> (entry: Option<()>)
        ensures
            entry is Some <==> self@.has_voted(candidate, voter),
    {
        if self.votes.has_voted(candidate, voter) {
            Some(())
        } else {
            None
        }
    }

    /// The members.
    pub fn members(&self) -> (store: &MembershipStore)
        ensures
            store@ == self@.members,
            store.wf() == self@.members.no_duplicates(),
    {
        &self.members
    }

    /// The votes on record.
    pub fn ledger(&self) -> (ledger: &VoteLedger)
        ensures
            ledger@ == self@.votes,
    {
        &self.votes
    }

    /// The threshold that this allow-list was made with.
    pub fn votes_to_allow(&self) -> (threshold: Threshold)
        ensures
            threshold@ == self@.threshold,
            self.wf() ==> threshold.wf(),
    {
        self.threshold
    }

    /// What has been announced since the events were last collected, oldest
    /// first.
    pub fn events(&self) -> (events: &Vec<Event>)
        ensures
            event_views(events@) == self@.events,
    {
        &self.events
    }

    /// Collects what has been announced and leaves nothing announced.
    pub fn take_events(&mut self) -> (events: Vec<Event>)
        requires
            old(self).wf(),
        ensures
            final(self).wf(),
            event_views(events@) == old(self)@.events,
            final(self)@ == (PalletView { events: Seq::empty(), ..old(self)@ }),
    {
        let mut events: Vec<Event> = Vec::new();
        std::mem::swap(&mut self.events, &mut events);
        assert(event_views(self.events@) =~= Seq::<EventView>::empty());
        events
    }

    /// Lets the listed accounts in, each once, into an allow-list that has
    /// neither members nor votes yet.
    fn initialize_allowed_accounts(&mut self, allowed_accounts: &[(AccountId, ())])
        requires
            old(self).wf(),
            old(self)@.members.len() == 0,
            old(self)@.votes.len() == 0,
        ensures
            final(self).wf(),
            final(self)@ == (PalletView {
                members: genesis_members(allowed_accounts@),
                ..old(self)@
            }),
    {
        let mut i: usize = 0;
        assert(self@.members =~= genesis_members(allowed_accounts@.take(0)));
        while i < allowed_accounts.len()
            invariant
                i <= allowed_accounts.len(),
                self.wf(),
                self@.votes.len() == 0,
                self@ == (PalletView {
                    members: genesis_members(allowed_accounts@.take(i as int)),
                    ..old(self)@
                }),
            decreases allowed_accounts.len() - i,
        {
            proof {
                let longer = allowed_accounts@.take(i + 1);
                assert(longer.drop_last() =~= allowed_accounts@.take(i as int));
                assert(longer.last() == allowed_accounts@[i as int]);
            }
            let account = allowed_accounts[i].0;
            self.members.add(account);
            i += 1;
        }
        assert(allowed_accounts@.take(i as int) =~= allowed_accounts@);
    }
}

} // verus!
