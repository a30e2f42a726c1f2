use sp_runtime::Percent;
use substrate_account_filter::threshold::quorum_reached;
use substrate_account_filter::Threshold;

fn at(percent: u8) -> Threshold {
    Threshold::new(percent).unwrap()
}

#[test]
fn threshold_accepts_one_to_hundred_only() {
    assert!(Threshold::new(0).is_none());
    assert_eq!(Threshold::new(1).unwrap().percent(), 1);
    assert_eq!(Threshold::new(51).unwrap().percent(), 51);
    assert_eq!(Threshold::new(100).unwrap().percent(), 100);
    assert!(Threshold::new(101).is_none());
    assert!(Threshold::new(255).is_none());
}

#[test]
fn one_of_three_is_below_fifty_one_percent() {
    assert!(!quorum_reached(1, 3, at(51)));
}

#[test]
fn two_of_three_reach_fifty_one_percent() {
    assert!(quorum_reached(2, 3, at(51)));
}

#[test]
fn two_of_three_reach_sixty_six_but_not_sixty_seven() {
    assert!(quorum_reached(2, 3, at(66)));
    assert!(!quorum_reached(2, 3, at(67)));
}

#[test]
fn exact_share_reaches_the_threshold() {
    assert!(quorum_reached(1, 2, at(50)));
    assert!(!quorum_reached(1, 2, at(51)));
    assert!(quorum_reached(51, 100, at(51)));
    assert!(!quorum_reached(50, 100, at(51)));
}

#[test]
fn full_house_reaches_hundred_percent() {
    assert!(quorum_reached(1, 1, at(100)));
    assert!(quorum_reached(7, 7, at(100)));
    assert!(!quorum_reached(6, 7, at(100)));
}

#[test]
fn no_vote_reaches_no_threshold() {
    assert!(!quorum_reached(0, 1, at(1)));
    assert!(!quorum_reached(0, 3, at(51)));
}

#[test]
fn empty_membership_counts_as_reached() {
    assert!(quorum_reached(0, 0, at(100)));
    assert!(quorum_reached(1, 0, at(51)));
}

#[test]
fn more_votes_than_members_counts_as_reached() {
    assert!(quorum_reached(5, 3, at(100)));
}

#[test]
fn large_tallies_are_compared_exactly() {
    assert!(quorum_reached(u64::MAX, u64::MAX, at(100)));
    assert!(!quorum_reached(u64::MAX - 1, u64::MAX, at(100)));
    assert!(quorum_reached(u64::MAX - 1, u64::MAX, at(99)));
    assert!(!quorum_reached(u64::MAX / 2, u64::MAX, at(50)));
    assert!(quorum_reached(u64::MAX / 2, u64::MAX, at(49)));
}

#[test]
fn quorum_agrees_with_cross_multiplication() {
    for required in 0u64..=12 {
        for votes in 0u64..=14 {
            for percent in 1u8..=100 {
                let expected = (votes as u128) * 100 >= (required as u128) * (percent as u128);
                assert_eq!(
                    quorum_reached(votes, required, at(percent)),
                    expected,
                    "{} of {} at {}",
                    votes,
                    required,
                    percent
                );
            }
        }
    }
}

#[test]
fn quorum_agrees_with_percent_comparison() {
    for required in 1u64..=9 {
        for votes in 0u64..=required {
            for percent in [1u8, 33, 34, 50, 51, 66, 67, 99, 100] {
                let expected =
                    Percent::from_rational(votes, required) >= Percent::from_percent(percent);
                assert_eq!(quorum_reached(votes, required, at(percent)), expected);
            }
        }
    }
}
