use substrate_account_filter::{Error, Event, GenesisConfig, Pallet, Threshold, Vote};

fn genesis(accounts: &[u64]) -> GenesisConfig {
    GenesisConfig {
        allowed_accounts: accounts.iter().map(|a| (*a, ())).collect(),
    }
}

fn pallet(accounts: &[u64], percent: u8) -> Pallet {
    genesis(accounts).build(Threshold::new(percent).unwrap())
}

fn state(pallet: &Pallet) -> (Vec<u64>, Vec<Vote>, Vec<Event>) {
    (
        pallet.members().list(),
        pallet.ledger().list(),
        pallet.events().clone(),
    )
}

fn voted(referrer: u64, referee: u64) -> Event {
    Event::AccountVoted { referrer, referee }
}

fn allowed(account: u64, voted_for: Vec<u64>) -> Event {
    Event::AccountAllowed { account, voted_for }
}

#[test]
fn default_genesis_is_empty() {
    let config = GenesisConfig::default();
    assert!(config.allowed_accounts.is_empty());
    let pallet = config.build(Threshold::new(51).unwrap());
    assert_eq!(state(&pallet), (vec![], vec![], vec![]));
}

#[test]
fn genesis_seeds_members_in_order() {
    let pallet = pallet(&[3, 1, 2], 51);
    assert_eq!(state(&pallet), (vec![3, 1, 2], vec![], vec![]));
    assert_eq!(pallet.votes_to_allow().percent(), 51);
}

#[test]
fn genesis_keeps_each_account_once() {
    let pallet = pallet(&[1, 2, 1, 3, 2], 51);
    assert_eq!(pallet.members().list(), vec![1, 2, 3]);
}

#[test]
fn nobody_can_vote_on_an_empty_allow_list() {
    let mut pallet = pallet(&[], 51);
    assert_eq!(pallet.vote_for_account(1, 2), Err(Error::NotAllowedToVote));
    assert_eq!(pallet.vote_for_account(1, 1), Err(Error::NotAllowedToVote));
    assert_eq!(state(&pallet), (vec![], vec![], vec![]));
}

#[test]
fn first_vote_of_three_is_recorded_only() {
    let mut pallet = pallet(&[1, 2, 3], 51);
    assert_eq!(pallet.vote_for_account(1, 4), Ok(()));
    assert_eq!(
        state(&pallet),
        (
            vec![1, 2, 3],
            vec![Vote { candidate: 4, voter: 1 }],
            vec![voted(1, 4)],
        )
    );
    assert_eq!(pallet.votes(4, 1), Some(()));
    assert_eq!(pallet.votes(4, 2), None);
}

#[test]
fn second_vote_of_three_promotes() {
    let mut pallet = pallet(&[1, 2, 3], 51);
    assert_eq!(pallet.vote_for_account(1, 4), Ok(()));
    assert_eq!(pallet.vote_for_account(2, 4), Ok(()));
    assert_eq!(
        state(&pallet),
        (
            vec![1, 2, 3, 4],
            vec![],
            vec![voted(1, 4), voted(2, 4), allowed(4, vec![1, 2])],
        )
    );
    assert_eq!(pallet.votes(4, 1), None);
    assert_eq!(pallet.ledger().count_voters_for(4), 0);
}

#[test]
fn deciding_voter_comes_last() {
    let mut pallet = pallet(&[1, 2, 3, 4, 5], 60);
    assert_eq!(pallet.vote_for_account(5, 9), Ok(()));
    assert_eq!(pallet.vote_for_account(2, 9), Ok(()));
    assert_eq!(pallet.allowed_accounts(9), None);
    assert_eq!(pallet.vote_for_account(1, 9), Ok(()));
    assert_eq!(pallet.allowed_accounts(9), Some(()));
    assert_eq!(
        pallet.events().last(),
        Some(&allowed(9, vec![5, 2, 1]))
    );
}

#[test]
fn promotion_leaves_votes_for_others_on_record() {
    let mut pallet = pallet(&[1, 2, 3], 51);
    assert_eq!(pallet.vote_for_account(1, 4), Ok(()));
    assert_eq!(pallet.vote_for_account(1, 5), Ok(()));
    assert_eq!(pallet.vote_for_account(2, 4), Ok(()));
    assert_eq!(pallet.members().list(), vec![1, 2, 3, 4]);
    assert_eq!(pallet.ledger().list(), vec![Vote { candidate: 5, voter: 1 }]);
}

#[test]
fn growing_membership_raises_the_bar() {
    let mut pallet = pallet(&[1, 2, 3], 51);
    assert_eq!(pallet.vote_for_account(1, 5), Ok(()));
    assert_eq!(pallet.vote_for_account(1, 4), Ok(()));
    assert_eq!(pallet.vote_for_account(2, 4), Ok(()));
    // Four members now: two of four is 50%, below 51%.
    assert_eq!(pallet.vote_for_account(2, 5), Ok(()));
    assert_eq!(pallet.allowed_accounts(5), None);
    assert_eq!(pallet.ledger().count_voters_for(5), 2);
    assert_eq!(pallet.vote_for_account(4, 5), Ok(()));
    assert_eq!(pallet.allowed_accounts(5), Some(()));
    assert_eq!(pallet.events().last(), Some(&allowed(5, vec![1, 2, 4])));
}

#[test]
fn sole_member_promotes_at_once() {
    let mut pallet = pallet(&[1], 100);
    assert_eq!(pallet.vote_for_account(1, 2), Ok(()));
    assert_eq!(
        state(&pallet),
        (vec![1, 2], vec![], vec![voted(1, 2), allowed(2, vec![1])])
    );
}

#[test]
fn unanimity_needs_every_member() {
    let mut pallet = pallet(&[1, 2, 3], 100);
    assert_eq!(pallet.vote_for_account(1, 4), Ok(()));
    assert_eq!(pallet.vote_for_account(2, 4), Ok(()));
    assert_eq!(pallet.allowed_accounts(4), None);
    assert_eq!(pallet.vote_for_account(3, 4), Ok(()));
    assert_eq!(pallet.allowed_accounts(4), Some(()));
}

#[test]
fn lowest_threshold_promotes_on_first_vote() {
    let mut pallet = pallet(&[1, 2, 3, 4, 5, 6, 7, 8, 9, 10], 1);
    assert_eq!(pallet.vote_for_account(7, 11), Ok(()));
    assert_eq!(pallet.allowed_accounts(11), Some(()));
}

#[test]
fn errors_are_checked_in_order() {
    let mut pallet = pallet(&[1, 2, 3], 51);
    assert_eq!(pallet.vote_for_account(1, 4), Ok(()));
    // A stranger voting for a member: the voter is judged first.
    assert_eq!(pallet.vote_for_account(9, 2), Err(Error::NotAllowedToVote));
    // A stranger repeating nothing: still judged as a stranger.
    assert_eq!(pallet.vote_for_account(4, 4), Err(Error::NotAllowedToVote));
    // A member voting for itself is voting for a member.
    assert_eq!(pallet.vote_for_account(1, 1), Err(Error::AlreadyAllowed));
    assert_eq!(pallet.vote_for_account(1, 4), Err(Error::DuplicateVote));
}

#[test]
fn rejected_votes_change_nothing() {
    let mut pallet = pallet(&[1, 2, 3], 51);
    assert_eq!(pallet.vote_for_account(1, 4), Ok(()));
    let before = state(&pallet);
    assert_eq!(pallet.vote_for_account(9, 4), Err(Error::NotAllowedToVote));
    assert_eq!(state(&pallet), before);
    assert_eq!(pallet.vote_for_account(2, 3), Err(Error::AlreadyAllowed));
    assert_eq!(state(&pallet), before);
    assert_eq!(pallet.vote_for_account(1, 4), Err(Error::DuplicateVote));
    assert_eq!(state(&pallet), before);
}

#[test]
fn non_member_never_votes() {
    let mut pallet = pallet(&[1, 2, 3], 51);
    for candidate in 0u64..8 {
        assert_eq!(
            pallet.vote_for_account(9, candidate),
            Err(Error::NotAllowedToVote)
        );
    }
}

#[test]
fn member_can_vote_for_every_non_member_once() {
    let mut pallet = pallet(&[1, 2, 3, 4, 5], 100);
    for candidate in 10u64..20 {
        assert_eq!(pallet.vote_for_account(2, candidate), Ok(()));
        assert_eq!(
            pallet.vote_for_account(2, candidate),
            Err(Error::DuplicateVote)
        );
    }
    assert_eq!(pallet.ledger().list().len(), 10);
}

#[test]
fn promoted_account_stays_member_and_without_votes() {
    let mut pallet = pallet(&[1, 2, 3], 51);
    assert_eq!(pallet.vote_for_account(1, 4), Ok(()));
    assert_eq!(pallet.vote_for_account(2, 4), Ok(()));
    for voter in 0u64..7 {
        for candidate in 0u64..7 {
            let _ = pallet.vote_for_account(voter, candidate);
            assert_eq!(pallet.allowed_accounts(4), Some(()));
            assert_eq!(pallet.ledger().count_voters_for(4), 0);
        }
    }
    assert_eq!(pallet.vote_for_account(3, 4), Err(Error::AlreadyAllowed));
}

#[test]
fn promoted_account_can_vote() {
    let mut pallet = pallet(&[1, 2, 3], 51);
    assert_eq!(pallet.vote_for_account(4, 5), Err(Error::NotAllowedToVote));
    assert_eq!(pallet.vote_for_account(1, 4), Ok(()));
    assert_eq!(pallet.vote_for_account(2, 4), Ok(()));
    assert_eq!(pallet.vote_for_account(4, 5), Ok(()));
    assert_eq!(pallet.votes(5, 4), Some(()));
}

#[test]
fn collected_events_leave_the_log_empty() {
    let mut pallet = pallet(&[1, 2, 3], 51);
    assert_eq!(pallet.vote_for_account(1, 4), Ok(()));
    assert_eq!(pallet.vote_for_account(2, 4), Ok(()));
    let events = pallet.take_events();
    assert_eq!(events, vec![voted(1, 4), voted(2, 4), allowed(4, vec![1, 2])]);
    assert!(pallet.events().is_empty());
    assert_eq!(pallet.members().list(), vec![1, 2, 3, 4]);
    assert_eq!(pallet.vote_for_account(4, 5), Ok(()));
    assert_eq!(pallet.take_events(), vec![voted(4, 5)]);
}

fn vote(candidate: u64, voter: u64) -> Vote {
    Vote { candidate, voter }
}

#[test]
fn restore_takes_over_a_sound_state() {
    let threshold = Threshold::new(51).unwrap();
    let mut pallet =
        Pallet::restore(vec![3, 1, 2], vec![vote(4, 1), vote(5, 3)], threshold).unwrap();
    assert_eq!(
        state(&pallet),
        (vec![3, 1, 2], vec![vote(4, 1), vote(5, 3)], vec![])
    );
    assert_eq!(pallet.votes_to_allow().percent(), 51);
    assert_eq!(pallet.vote_for_account(1, 4), Err(Error::DuplicateVote));
    assert_eq!(pallet.vote_for_account(2, 4), Ok(()));
    assert_eq!(
        state(&pallet),
        (
            vec![3, 1, 2, 4],
            vec![vote(5, 3)],
            vec![voted(2, 4), allowed(4, vec![1, 2])],
        )
    );
}

#[test]
fn restore_of_nothing_is_the_empty_allow_list() {
    let pallet = Pallet::restore(vec![], vec![], Threshold::new(100).unwrap()).unwrap();
    assert_eq!(state(&pallet), (vec![], vec![], vec![]));
}

#[test]
fn restore_refuses_a_member_listed_twice() {
    let threshold = Threshold::new(51).unwrap();
    assert!(Pallet::restore(vec![1, 2, 1], vec![], threshold).is_none());
}

#[test]
fn restore_refuses_a_vote_listed_twice() {
    let threshold = Threshold::new(51).unwrap();
    assert!(Pallet::restore(vec![1, 2], vec![vote(4, 1), vote(4, 2), vote(4, 1)], threshold)
        .is_none());
}

#[test]
fn restore_refuses_a_vote_of_a_stranger() {
    let threshold = Threshold::new(51).unwrap();
    assert!(Pallet::restore(vec![1, 2], vec![vote(4, 3)], threshold).is_none());
}

#[test]
fn restore_refuses_a_vote_for_a_member() {
    let threshold = Threshold::new(51).unwrap();
    assert!(Pallet::restore(vec![1, 2], vec![vote(2, 1)], threshold).is_none());
}
