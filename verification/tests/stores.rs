use substrate_account_filter::{MembershipStore, Vote, VoteLedger};

#[test]
fn new_store_has_no_members() {
    let store = MembershipStore::new();
    assert_eq!(store.size(), 0);
    assert!(store.list().is_empty());
    assert!(!store.is_member(1));
}

#[test]
fn store_holds_each_member_once_in_order() {
    let mut store = MembershipStore::new();
    assert!(store.add(7));
    assert!(store.add(3));
    assert!(!store.add(7));
    assert!(store.add(5));
    assert_eq!(store.list(), vec![7, 3, 5]);
    assert_eq!(store.size(), 3);
    assert!(store.is_member(3));
    assert!(store.is_member(5));
    assert!(store.is_member(7));
    assert!(!store.is_member(4));
}

#[test]
fn new_ledger_has_no_votes() {
    let mut ledger = VoteLedger::new();
    assert!(ledger.list().is_empty());
    assert!(!ledger.has_voted(4, 1));
    assert_eq!(ledger.count_voters_for(4), 0);
    assert!(ledger.drain_voters_for(4).is_empty());
    assert!(ledger.list().is_empty());
}

#[test]
fn ledger_records_each_pair_once() {
    let mut ledger = VoteLedger::new();
    assert!(ledger.record_vote(4, 1));
    assert!(!ledger.record_vote(4, 1));
    assert!(ledger.record_vote(4, 2));
    assert!(ledger.record_vote(5, 1));
    assert_eq!(
        ledger.list(),
        vec![
            Vote { candidate: 4, voter: 1 },
            Vote { candidate: 4, voter: 2 },
            Vote { candidate: 5, voter: 1 },
        ]
    );
    assert!(ledger.has_voted(4, 1));
    assert!(ledger.has_voted(4, 2));
    assert!(ledger.has_voted(5, 1));
    assert!(!ledger.has_voted(5, 2));
    assert!(!ledger.has_voted(1, 4));
    assert_eq!(ledger.count_voters_for(4), 2);
    assert_eq!(ledger.count_voters_for(5), 1);
    assert_eq!(ledger.count_voters_for(6), 0);
}

#[test]
fn drain_hands_back_voters_in_voting_order_and_keeps_the_rest() {
    let mut ledger = VoteLedger::new();
    ledger.record_vote(4, 3);
    ledger.record_vote(5, 1);
    ledger.record_vote(4, 1);
    ledger.record_vote(6, 2);
    ledger.record_vote(4, 2);
    assert_eq!(ledger.drain_voters_for(4), vec![3, 1, 2]);
    assert_eq!(
        ledger.list(),
        vec![
            Vote { candidate: 5, voter: 1 },
            Vote { candidate: 6, voter: 2 },
        ]
    );
    assert_eq!(ledger.count_voters_for(4), 0);
    assert!(!ledger.has_voted(4, 3));
    assert!(ledger.drain_voters_for(4).is_empty());
    assert_eq!(ledger.count_voters_for(5), 1);
}

#[test]
fn drained_pair_can_be_recorded_again() {
    let mut ledger = VoteLedger::new();
    ledger.record_vote(4, 1);
    assert_eq!(ledger.drain_voters_for(4), vec![1]);
    assert!(ledger.record_vote(4, 1));
    assert_eq!(ledger.count_voters_for(4), 1);
}
